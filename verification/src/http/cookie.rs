//! Cookies as in RFC 6265: the `Cookie` header of requests and the `Set-Cookie` header
//! of responses.

use vstd::prelude::*;

use crate::http::date::{duration_as_secs, duration_whole_secs};
use crate::http::headers::Header;
use crate::text::{decimal, owned_string, push_decimal, string_push, string_push_str};

use core::time::Duration;

verus! {

/// An HTTP cookie as in the `Cookie` header.
#[derive(Clone, Debug, PartialEq, Eq)]
pub struct Cookie {
    /// The name of the cookie.
    pub name: String,
    /// The value of the cookie.
    pub value: String,
}

/// An HTTP cookie as in the `Set-Cookie` header, with attributes such as its expiry.
#[derive(Clone, Debug, PartialEq, Eq)]
pub struct SetCookie {
    /// The name of the cookie.
    pub name: String,
    /// The value of the cookie.
    pub value: String,
    /// The expiry date of the cookie as an HTTP timestamp.
    pub expires: Option<String>,
    /// The maximum age of the cookie.
    pub max_age: Option<Duration>,
    /// The domain of the cookie.
    pub domain: Option<String>,
    /// The path of the cookie.
    pub path: Option<String>,
    /// Whether the cookie is secure.
    pub secure: bool,
    /// Whether the cookie is HTTP-only.
    pub http_only: bool,
    /// The SameSite configuration of the cookie.
    pub same_site: Option<SameSite>,
}

/// The SameSite setting of a cookie.
#[derive(Clone, Copy, Debug, PartialEq, Eq, Structural)]
pub enum SameSite {
    /// Cookies will only be sent in a first-party context and not be sent along with
    /// requests initiated by third party websites.
    Strict,
    /// Cookies are not sent on normal cross-site subrequests, but are sent when a user is
    /// navigating to the origin site.
    Lax,
    /// Cookies will be sent in all contexts; written as `None` in the header. The
    /// cookie's Secure attribute must also be set, or the cookie will be blocked.
    Unrestricted,
}

/// `name=value` for a cookie.
pub open spec fn cookie_pair(c: Cookie) -> Seq<char> {
    c.name@ + seq!['='] + c.value@
}

/// The value of the `Cookie` header for the given cookies: their `name=value` pairs
/// separated by `; `.
pub open spec fn cookie_header_value(cookies: Seq<Cookie>) -> Seq<char>
    decreases cookies.len(),
{
    if cookies.len() == 0 {
        Seq::empty()
    } else if cookies.len() == 1 {
        cookie_pair(cookies[0])
    } else {
        cookie_header_value(cookies.drop_last()) + seq![';', ' '] + cookie_pair(cookies.last())
    }
}

impl Cookie {
    /// Creates a cookie with the given name and value.
    pub fn new(name: &str, value: &str) -> (r: Cookie)
        ensures
            r.name@ == name@,
            r.value@ == value@,
    {
        Cookie { name: owned_string(name), value: owned_string(value) }
    }

    /// Converts a collection of cookies into a `Cookie` header; `None` when there are no
    /// cookies.
    pub fn to_header(cookies: &[Cookie]) -> (r: Option<Header>)
        ensures
            cookies@.len() == 0 ==> r is None,
            cookies@.len() > 0 ==> (r matches Some(h) && h.name@ == "Cookie"@ && h.value@
                == cookie_header_value(cookies@)),
    {
        if cookies.len() == 0 {
            return None;
        }
        let mut value = String::new();
        let mut i: usize = 0;
        while i < cookies.len()
            invariant
                0 < cookies@.len(),
                i <= cookies@.len(),
                value@ == cookie_header_value(cookies@.take(i as int)),
            decreases cookies.len() - i,
        {
            let ghost before = value@;
            if i > 0 {
                string_push(&mut value, ';');
                string_push(&mut value, ' ');
            }
            string_push_str(&mut value, cookies[i].name.as_str());
            string_push(&mut value, '=');
            string_push_str(&mut value, cookies[i].value.as_str());
            proof {
                let t = cookies@.take(i + 1);
                assert(t.drop_last() =~= cookies@.take(i as int));
                assert(t.last() == cookies@[i as int]);
                if i == 0 {
                    assert(value@ =~= cookie_pair(cookies@[0]));
                } else {
                    assert(value@ =~= before + seq![';', ' '] + cookie_pair(cookies@[i as int]));
                }
            }
            i = i + 1;
        }
        assert(cookies@.take(i as int) =~= cookies@);
        Some(Header { name: owned_string("Cookie"), value })
    }
}

/// The name of a SameSite setting.
pub open spec fn same_site_name(s: SameSite) -> Seq<char> {
    match s {
        SameSite::Strict => "Strict"@,
        SameSite::Lax => "Lax"@,
        SameSite::Unrestricted => "None"@,
    }
}

/// `text` followed by `attribute` and `value` when there is a value.
pub open spec fn with_attribute(text: Seq<char>, attribute: Seq<char>, value: Option<Seq<char>>) -> Seq<char> {
    match value {
        Some(v) => text + attribute + v,
        None => text,
    }
}

/// The value of the `Set-Cookie` header for a cookie, given the number of whole seconds
/// in its maximum age: `name=value`, then `; Expires=`, `; Max-Age=`, `; Domain=`,
/// `; Path=` and `; SameSite=` for the attributes that are set, then `; Secure` and
/// `; HttpOnly` for the flags that are set.
pub open spec fn set_cookie_value(c: SetCookie, max_age_secs: Option<u64>) -> Seq<char> {
    let v0 = c.name@ + seq!['='] + c.value@;
    let v1 = with_attribute(
        v0,
        "; Expires="@,
        match c.expires {
            Some(e) => Some(e@),
            None => None,
        },
    );
    let v2 = with_attribute(
        v1,
        "; Max-Age="@,
        match max_age_secs {
            Some(s) => Some(decimal(s as nat)),
            None => None,
        },
    );
    let v3 = with_attribute(
        v2,
        "; Domain="@,
        match c.domain {
            Some(d) => Some(d@),
            None => None,
        },
    );
    let v4 = with_attribute(
        v3,
        "; Path="@,
        match c.path {
            Some(p) => Some(p@),
            None => None,
        },
    );
    let v5 = with_attribute(
        v4,
        "; SameSite="@,
        match c.same_site {
            Some(s) => Some(same_site_name(s)),
            None => None,
        },
    );
    let v6 = if c.secure {
        v5 + "; Secure"@
    } else {
        v5
    };
    if c.http_only {
        v6 + "; HttpOnly"@
    } else {
        v6
    }
}

/// The whole seconds of a cookie's maximum age, when it has one.
pub open spec fn max_age_secs(c: SetCookie) -> Option<u64> {
    match c.max_age {
        Some(d) => Some(duration_whole_secs(d)),
        None => None,
    }
}

impl SetCookie {
    /// Creates a cookie with the given name and value and no attributes.
    pub fn new(name: &str, value: &str) -> (r: SetCookie)
        ensures
            r.name@ == name@,
            r.value@ == value@,
            r.expires is None,
            r.max_age is None,
            r.domain is None,
            r.path is None,
            !r.secure,
            !r.http_only,
            r.same_site is None,
    {
        SetCookie {
            name: owned_string(name),
            value: owned_string(value),
            expires: None,
            max_age: None,
            domain: None,
            path: None,
            secure: false,
            http_only: false,
            same_site: None,
        }
    }

    /// Sets the expiry date of the cookie, which must be a valid HTTP timestamp.
    pub fn with_expires(self, expires: &str) -> (r: SetCookie)
        ensures
            r == (SetCookie { expires: r.expires, ..self }),
            r.expires matches Some(e) && e@ == expires@,
    {
        SetCookie { expires: Some(owned_string(expires)), ..self }
    }

    /// Sets the maximum age of the cookie.
    pub fn with_max_age(self, max_age: Duration) -> (r: SetCookie)
        ensures
            r == (SetCookie { max_age: Some(max_age), ..self }),
    {
        SetCookie { max_age: Some(max_age), ..self }
    }

    /// Sets the domain of the cookie.
    pub fn with_domain(self, domain: &str) -> (r: SetCookie)
        ensures
            r == (SetCookie { domain: r.domain, ..self }),
            r.domain matches Some(d) && d@ == domain@,
    {
        SetCookie { domain: Some(owned_string(domain)), ..self }
    }

    /// Sets the path of the cookie.
    pub fn with_path(self, path: &str) -> (r: SetCookie)
        ensures
            r == (SetCookie { path: r.path, ..self }),
            r.path matches Some(p) && p@ == path@,
    {
        SetCookie { path: Some(owned_string(path)), ..self }
    }

    /// Sets the secure flag of the cookie.
    pub fn with_secure(self, secure: bool) -> (r: SetCookie)
        ensures
            r == (SetCookie { secure, ..self }),
    {
        SetCookie { secure, ..self }
    }

    /// Sets the HTTP-only flag of the cookie.
    pub fn with_http_only(self, http_only: bool) -> (r: SetCookie)
        ensures
            r == (SetCookie { http_only, ..self }),
    {
        SetCookie { http_only, ..self }
    }

    /// Sets the SameSite configuration of the cookie.
    pub fn with_same_site(self, same_site: SameSite) -> (r: SetCookie)
        ensures
            r == (SetCookie { same_site: Some(same_site), ..self }),
    {
        SetCookie { same_site: Some(same_site), ..self }
    }

    /// Writes the value of the `Set-Cookie` header for this cookie, given the whole
    /// seconds of its maximum age (`None` leaves `Max-Age` out).
    pub fn header_value(&self, max_age_secs: Option<u64>) -> (r: String)
        ensures
            r@ == set_cookie_value(*self, max_age_secs),
    {
        let mut value = String::new();
        string_push_str(&mut value, self.name.as_str());
        string_push(&mut value, '=');
        string_push_str(&mut value, self.value.as_str());
        assert(value@ =~= self.name@ + seq!['='] + self.value@);
        if let Some(expires) = &self.expires {
            string_push_str(&mut value, "; Expires=");
            string_push_str(&mut value, expires.as_str());
        }
        if let Some(secs) = max_age_secs {
            string_push_str(&mut value, "; Max-Age=");
            push_decimal(&mut value, secs);
        }
        if let Some(domain) = &self.domain {
            string_push_str(&mut value, "; Domain=");
            string_push_str(&mut value, domain.as_str());
        }
        if let Some(path) = &self.path {
            string_push_str(&mut value, "; Path=");
            string_push_str(&mut value, path.as_str());
        }
        if let Some(same_site) = self.same_site {
            string_push_str(&mut value, "; SameSite=");
            match same_site {
                SameSite::Strict => string_push_str(&mut value, "Strict"),
                SameSite::Lax => string_push_str(&mut value, "Lax"),
                SameSite::Unrestricted => string_push_str(&mut value, "None"),
            }
        }
        if self.secure {
            string_push_str(&mut value, "; Secure");
        }
        if self.http_only {
            string_push_str(&mut value, "; HttpOnly");
        }
        value
    }

    /// Converts the cookie into a `Set-Cookie` header.
    pub fn to_header(self) -> (r: Header)
        ensures
            r.name@ == "Set-Cookie"@,
            r.value@ == set_cookie_value(self, max_age_secs(self)),
    {
        let secs = match &self.max_age {
            Some(d) => Some(duration_as_secs(d)),
            None => None,
        };
        let value = self.header_value(secs);
        Header { name: owned_string("Set-Cookie"), value }
    }
}

} // verus!
verus! {

/// The `Set-Cookie` value of a cookie ends with its SameSite attribute, written with the
/// policy's name (`Strict`, `Lax`, or `None` for `Unrestricted`), then `; Secure` and
/// `; HttpOnly` for the flags that are set; what comes before is the value of the same
/// cookie without those three.
pub proof fn lemma_set_cookie_tail(c: SetCookie, max_age_secs: Option<u64>)
    ensures
        set_cookie_value(c, max_age_secs) == set_cookie_value(
            SetCookie { same_site: None, secure: false, http_only: false, ..c },
            max_age_secs,
        ) + match c.same_site {
            None => Seq::<char>::empty(),
            Some(SameSite::Strict) => "; SameSite=Strict"@,
            Some(SameSite::Lax) => "; SameSite=Lax"@,
            Some(SameSite::Unrestricted) => "; SameSite=None"@,
        } + if c.secure {
            "; Secure"@
        } else {
            Seq::<char>::empty()
        } + if c.http_only {
            "; HttpOnly"@
        } else {
            Seq::<char>::empty()
        },
{
    reveal_strlit("; SameSite=");
    reveal_strlit("; SameSite=Strict");
    reveal_strlit("; SameSite=Lax");
    reveal_strlit("; SameSite=None");
    reveal_strlit("Strict");
    reveal_strlit("Lax");
    reveal_strlit("None");
    let base = set_cookie_value(
        SetCookie { same_site: None, secure: false, http_only: false, ..c },
        max_age_secs,
    );
    let ss = match c.same_site {
        None => Seq::<char>::empty(),
        Some(SameSite::Strict) => "; SameSite=Strict"@,
        Some(SameSite::Lax) => "; SameSite=Lax"@,
        Some(SameSite::Unrestricted) => "; SameSite=None"@,
    };
    let v5 = with_attribute(
        base,
        "; SameSite="@,
        match c.same_site {
            Some(s) => Some(same_site_name(s)),
            None => None,
        },
    );
    assert(v5 =~= base + ss);
}

} // verus!
