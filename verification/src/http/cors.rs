//! Cross-origin resource sharing: the `Access-Control-Allow-*` headers of a response.

use vstd::prelude::*;

use crate::http::header_map::{insert_entry, ResponseHeaderMap};
use crate::http::headers::ResponseHeader;
use crate::http::method::Method;
use crate::text::{join_spec, join_strings, owned_string};

verus! {

/// Either everything (`*`) or a list of allowed values.
#[derive(Clone)]
enum Wildcardable<T> {
    Wildcard,
    Value(T),
}

/// The CORS configuration of a route: which origins, methods and headers are allowed.
#[derive(Clone)]
pub struct Cors {
    allowed_origins: Wildcardable<Vec<String>>,
    allowed_methods: Wildcardable<Vec<Method>>,
    allowed_headers: Wildcardable<Vec<String>>,
}

/// What a CORS configuration allows of one kind: everything (`None`) or the listed values.
pub type Allowed<T> = Option<Seq<T>>;

impl View for Cors {
    type V = (Allowed<Seq<char>>, Allowed<Method>, Allowed<Seq<char>>);

    /// The allowed origins, methods and headers.
    closed spec fn view(&self) -> (Allowed<Seq<char>>, Allowed<Method>, Allowed<Seq<char>>) {
        (
            match self.allowed_origins {
                Wildcardable::Wildcard => None,
                Wildcardable::Value(v) => Some(v@.map_values(|s: String| s@)),
            },
            match self.allowed_methods {
                Wildcardable::Wildcard => None,
                Wildcardable::Value(v) => Some(v@),
            },
            match self.allowed_headers {
                Wildcardable::Wildcard => None,
                Wildcardable::Value(v) => Some(v@.map_values(|s: String| s@)),
            },
        )
    }
}

/// The view of the name of the `Access-Control-Allow-Methods` header.
pub open spec fn allow_methods_header() -> (nat, Seq<char>) {
    (24nat, "Access-Control-Allow-Methods"@)
}

/// The view of the name of the `Access-Control-Allow-Headers` header.
pub open spec fn allow_headers_header() -> (nat, Seq<char>) {
    (24nat, "Access-Control-Allow-Headers"@)
}

/// The headers after a CORS configuration has added its own: `Access-Control-Allow-Origin`
/// is `*` for any origin or the listed origins joined by `, ` when there are any;
/// `Access-Control-Allow-Methods` is `*` for any method or the listed methods joined by
/// `, ` when there are any; `Access-Control-Allow-Headers` is `*` for any header
/// or the listed headers joined by `, ` when there are any.
pub open spec fn cors_headers(
    cors: (Allowed<Seq<char>>, Allowed<Method>, Allowed<Seq<char>>),
    headers: Seq<((nat, Seq<char>), Seq<char>)>,
) -> Seq<((nat, Seq<char>), Seq<char>)> {
    let h1 = match cors.0 {
        None => insert_entry::<ResponseHeader>(headers, ResponseHeader::AccessControlAllowOrigin@, "*"@),
        Some(o) => if o.len() > 0 {
            insert_entry::<ResponseHeader>(
                headers,
                ResponseHeader::AccessControlAllowOrigin@,
                join_spec(o, ", "@),
            )
        } else {
            headers
        },
    };
    let h2 = match cors.1 {
        Some(m) => if m.len() > 0 {
            insert_entry::<ResponseHeader>(
                h1,
                allow_methods_header(),
                join_spec(m.map_values(|x: Method| x.spec_name()), ", "@),
            )
        } else {
            h1
        },
        None => insert_entry::<ResponseHeader>(h1, allow_methods_header(), "*"@),
    };
    match cors.2 {
        None => insert_entry::<ResponseHeader>(h2, allow_headers_header(), "*"@),
        Some(h) => if h.len() > 0 {
            insert_entry::<ResponseHeader>(h2, allow_headers_header(), join_spec(h, ", "@))
        } else {
            h2
        },
    }
}

impl Cors {
    /// A configuration that allows nothing.
    pub fn new() -> (r: Cors)
        ensures
            r@ == (Some(Seq::<Seq<char>>::empty()), Some(Seq::<Method>::empty()), Some(
                Seq::<Seq<char>>::empty(),
            )),
    {
        let r = Cors {
            allowed_origins: Wildcardable::Value(Vec::new()),
            allowed_methods: Wildcardable::Value(Vec::new()),
            allowed_headers: Wildcardable::Value(Vec::new()),
        };
        assert(r@.0 == Some(Seq::<Seq<char>>::empty()));
        assert(r@.2 == Some(Seq::<Seq<char>>::empty()));
        r
    }

    /// A configuration that allows any origin, method and header.
    pub fn wildcard() -> (r: Cors)
        ensures
            r@ == (None::<Seq<Seq<char>>>, None::<Seq<Method>>, None::<Seq<Seq<char>>>),
    {
        Cors {
            allowed_origins: Wildcardable::Wildcard,
            allowed_methods: Wildcardable::Wildcard,
            allowed_headers: Wildcardable::Wildcard,
        }
    }

    /// Allows any origin.
    pub fn with_wildcard_origin(self) -> (r: Cors)
        ensures
            r@ == (None::<Seq<Seq<char>>>, self@.1, self@.2),
    {
        Cors { allowed_origins: Wildcardable::Wildcard, ..self }
    }

    /// Allows any method.
    pub fn with_wildcard_methods(self) -> (r: Cors)
        ensures
            r@ == (self@.0, None::<Seq<Method>>, self@.2),
    {
        Cors { allowed_methods: Wildcardable::Wildcard, ..self }
    }

    /// Allows any header.
    pub fn with_wildcard_headers(self) -> (r: Cors)
        ensures
            r@ == (self@.0, self@.1, None::<Seq<Seq<char>>>),
    {
        Cors { allowed_headers: Wildcardable::Wildcard, ..self }
    }

    /// Allows the given origin; no change when any origin is allowed.
    pub fn with_origin(self, origin: &str) -> (r: Cors)
        ensures
            r@ == (
                match self@.0 {
                    None => None,
                    Some(o) => Some(o.push(origin@)),
                },
                self@.1,
                self@.2,
            ),
    {
        match self.allowed_origins {
            Wildcardable::Wildcard => Cors { allowed_origins: Wildcardable::Wildcard, ..self },
            Wildcardable::Value(origins) => {
                let mut origins = origins;
                let ghost before = origins@;
                origins.push(owned_string(origin));
                let r = Cors { allowed_origins: Wildcardable::Value(origins), ..self };
                assert(origins@.map_values(|s: String| s@) =~= before.map_values(|s: String| s@).push(
                    origin@,
                ));
                r
            },
        }
    }

    /// Allows the given method; no change when any method is allowed.
    pub fn with_method(self, method: Method) -> (r: Cors)
        ensures
            r@ == (
                self@.0,
                match self@.1 {
                    None => None,
                    Some(m) => Some(m.push(method)),
                },
                self@.2,
            ),
    {
        match self.allowed_methods {
            Wildcardable::Wildcard => Cors { allowed_methods: Wildcardable::Wildcard, ..self },
            Wildcardable::Value(methods) => {
                let mut methods = methods;
                methods.push(method);
                Cors { allowed_methods: Wildcardable::Value(methods), ..self }
            },
        }
    }

    /// Allows the header with the given name; no change when any header is allowed.
    pub fn with_header(self, header: &str) -> (r: Cors)
        ensures
            r@ == (
                self@.0,
                self@.1,
                match self@.2 {
                    None => None,
                    Some(h) => Some(h.push(header@)),
                },
            ),
    {
        match self.allowed_headers {
            Wildcardable::Wildcard => Cors { allowed_headers: Wildcardable::Wildcard, ..self },
            Wildcardable::Value(headers) => {
                let mut headers = headers;
                let ghost before = headers@;
                headers.push(owned_string(header));
                let r = Cors { allowed_headers: Wildcardable::Value(headers), ..self };
                assert(headers@.map_values(|s: String| s@) =~= before.map_values(|s: String| s@).push(
                    header@,
                ));
                r
            },
        }
    }

    /// Adds the CORS headers of this configuration to a response's headers.
    pub fn set_headers(&self, headers: &mut ResponseHeaderMap)
        ensures
            final(headers)@ == cors_headers(self@, old(headers)@),
    {
        match &self.allowed_origins {
            Wildcardable::Wildcard => {
                headers.insert(ResponseHeader::AccessControlAllowOrigin, owned_string("*"));
            },
            Wildcardable::Value(origins) => {
                if origins.len() > 0 {
                    headers.insert(
                        ResponseHeader::AccessControlAllowOrigin,
                        join_strings(origins, ", "),
                    );
                }
            },
        }
        match &self.allowed_methods {
            Wildcardable::Value(methods) => {
                if methods.len() > 0 {
                    let mut names: Vec<String> = Vec::new();
                    let mut i: usize = 0;
                    while i < methods.len()
                        invariant
                            i <= methods@.len(),
                            names@.map_values(|p: String| p@) == methods@.take(i as int).map_values(
                                |x: Method| x.spec_name(),
                            ),
                        decreases methods.len() - i,
                    {
                        let ghost before = names@;
                        let name = owned_string(methods[i].name());
                        names.push(name);
                        assert(methods@.take(i + 1) =~= methods@.take(i as int).push(methods@[i as int]));
                        assert(names@ == before.push(name));
                        assert(names@.map_values(|p: String| p@) =~= before.map_values(|p: String| p@).push(
                            name@,
                        ));
                        assert(names@.map_values(|p: String| p@) =~= methods@.take(i + 1).map_values(
                            |x: Method| x.spec_name(),
                        ));
                        i = i + 1;
                    }
                    assert(methods@.take(i as int) =~= methods@);
                    headers.insert(
                        ResponseHeader::Custom { name: owned_string("Access-Control-Allow-Methods") },
                        join_strings(&names, ", "),
                    );
                }
            },
            Wildcardable::Wildcard => {
                headers.insert(
                    ResponseHeader::Custom { name: owned_string("Access-Control-Allow-Methods") },
                    owned_string("*"),
                );
            },
        }
        match &self.allowed_headers {
            Wildcardable::Wildcard => {
                headers.insert(
                    ResponseHeader::Custom { name: owned_string("Access-Control-Allow-Headers") },
                    owned_string("*"),
                );
            },
            Wildcardable::Value(allowed) => {
                if allowed.len() > 0 {
                    headers.insert(
                        ResponseHeader::Custom { name: owned_string("Access-Control-Allow-Headers") },
                        join_strings(allowed, ", "),
                    );
                }
            },
        }
    }
}

impl Default for Cors {
    fn default() -> (r: Cors)
        ensures
            r@ == (Some(Seq::<Seq<char>>::empty()), Some(Seq::<Method>::empty()), Some(
                Seq::<Seq<char>>::empty(),
            )),
    {
        Cors::new()
    }
}

} // verus!
