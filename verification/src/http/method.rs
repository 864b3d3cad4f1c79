//! HTTP request methods.

use vstd::prelude::*;

use crate::http::request::RequestError;
use crate::text::str_eq;

verus! {

/// An HTTP request method.
#[derive(Clone, Copy, Debug, PartialEq, Eq, Structural)]
pub enum Method {
    /// The `GET` method.
    Get,
    /// The `POST` method.
    Post,
    /// The `PUT` method.
    Put,
    /// The `DELETE` method.
    Delete,
    /// The `OPTIONS` method.
    Options,
    /// The `HEAD` method.
    Head,
    /// The `TRACE` method.
    Trace,
    /// The `CONNECT` method.
    Connect,
    /// The `PATCH` method.
    Patch,
}

impl Method {
    /// The name of the method as written in a request line.
    pub open spec fn spec_name(self) -> Seq<char> {
        match self {
            Method::Get => "GET"@,
            Method::Post => "POST"@,
            Method::Put => "PUT"@,
            Method::Delete => "DELETE"@,
            Method::Options => "OPTIONS"@,
            Method::Head => "HEAD"@,
            Method::Trace => "TRACE"@,
            Method::Connect => "CONNECT"@,
            Method::Patch => "PATCH"@,
        }
    }

    /// The method with the given name, if there is one; names are matched exactly.
    pub open spec fn spec_from_name(name: Seq<char>) -> Option<Method> {
        if name == "GET"@ {
            Some(Method::Get)
        } else if name == "POST"@ {
            Some(Method::Post)
        } else if name == "PUT"@ {
            Some(Method::Put)
        } else if name == "DELETE"@ {
            Some(Method::Delete)
        } else if name == "OPTIONS"@ {
            Some(Method::Options)
        } else if name == "HEAD"@ {
            Some(Method::Head)
        } else if name == "TRACE"@ {
            Some(Method::Trace)
        } else if name == "CONNECT"@ {
            Some(Method::Connect)
        } else if name == "PATCH"@ {
            Some(Method::Patch)
        } else {
            None
        }
    }

    /// Reads a method name, failing with `RequestError::Request` on an unknown name.
    pub fn from_name(name: &str) -> (r: Result<Method, RequestError>)
        ensures
            match Method::spec_from_name(name@) {
                Some(m) => r == Ok::<Method, RequestError>(m),
                None => r == Err::<Method, RequestError>(RequestError::Request),
            },
    {
        if str_eq(name, "GET") {
            Ok(Method::Get)
        } else if str_eq(name, "POST") {
            Ok(Method::Post)
        } else if str_eq(name, "PUT") {
            Ok(Method::Put)
        } else if str_eq(name, "DELETE") {
            Ok(Method::Delete)
        } else if str_eq(name, "OPTIONS") {
            Ok(Method::Options)
        } else if str_eq(name, "HEAD") {
            Ok(Method::Head)
        } else if str_eq(name, "TRACE") {
            Ok(Method::Trace)
        } else if str_eq(name, "CONNECT") {
            Ok(Method::Connect)
        } else if str_eq(name, "PATCH") {
            Ok(Method::Patch)
        } else {
            Err(RequestError::Request)
        }
    }

    /// The name of the method, e.g. `GET`.
    pub fn name(self) -> (r: &'static str)
        ensures
            r@ == self.spec_name(),
    {
        match self {
            Method::Get => "GET",
            Method::Post => "POST",
            Method::Put => "PUT",
            Method::Delete => "DELETE",
            Method::Options => "OPTIONS",
            Method::Head => "HEAD",
            Method::Trace => "TRACE",
            Method::Connect => "CONNECT",
            Method::Patch => "PATCH",
        }
    }
}

/// Reading the name of a method gives the method back, and the name holds no space.
pub proof fn lemma_method_name_roundtrip(m: Method)
    ensures
        Method::spec_from_name(m.spec_name()) == Some(m),
        !m.spec_name().contains(' '),
{
    match m {
        Method::Get => {
            reveal_strlit("GET");
            assert forall|i: int| 0 <= i < "GET"@.len() implies "GET"@[i] != ' ' by {}
        },
        Method::Post => {
            reveal_strlit("POST");
            reveal_strlit("GET");
            assert("POST"@.len() != "GET"@.len());
            assert forall|i: int| 0 <= i < "POST"@.len() implies "POST"@[i] != ' ' by {}
        },
        Method::Put => {
            reveal_strlit("PUT");
            reveal_strlit("GET");
            assert("PUT"@[0] != "GET"@[0]);
            reveal_strlit("POST");
            assert("PUT"@.len() != "POST"@.len());
            assert forall|i: int| 0 <= i < "PUT"@.len() implies "PUT"@[i] != ' ' by {}
        },
        Method::Delete => {
            reveal_strlit("DELETE");
            reveal_strlit("GET");
            assert("DELETE"@.len() != "GET"@.len());
            reveal_strlit("POST");
            assert("DELETE"@.len() != "POST"@.len());
            reveal_strlit("PUT");
            assert("DELETE"@.len() != "PUT"@.len());
            assert forall|i: int| 0 <= i < "DELETE"@.len() implies "DELETE"@[i] != ' ' by {}
        },
        Method::Options => {
            reveal_strlit("OPTIONS");
            reveal_strlit("GET");
            assert("OPTIONS"@.len() != "GET"@.len());
            reveal_strlit("POST");
            assert("OPTIONS"@.len() != "POST"@.len());
            reveal_strlit("PUT");
            assert("OPTIONS"@.len() != "PUT"@.len());
            reveal_strlit("DELETE");
            assert("OPTIONS"@.len() != "DELETE"@.len());
            assert forall|i: int| 0 <= i < "OPTIONS"@.len() implies "OPTIONS"@[i] != ' ' by {}
        },
        Method::Head => {
            reveal_strlit("HEAD");
            reveal_strlit("GET");
            assert("HEAD"@.len() != "GET"@.len());
            reveal_strlit("POST");
            assert("HEAD"@[0] != "POST"@[0]);
            reveal_strlit("PUT");
            assert("HEAD"@.len() != "PUT"@.len());
            reveal_strlit("DELETE");
            assert("HEAD"@.len() != "DELETE"@.len());
            reveal_strlit("OPTIONS");
            assert("HEAD"@.len() != "OPTIONS"@.len());
            assert forall|i: int| 0 <= i < "HEAD"@.len() implies "HEAD"@[i] != ' ' by {}
        },
        Method::Trace => {
            reveal_strlit("TRACE");
            reveal_strlit("GET");
            assert("TRACE"@.len() != "GET"@.len());
            reveal_strlit("POST");
            assert("TRACE"@.len() != "POST"@.len());
            reveal_strlit("PUT");
            assert("TRACE"@.len() != "PUT"@.len());
            reveal_strlit("DELETE");
            assert("TRACE"@.len() != "DELETE"@.len());
            reveal_strlit("OPTIONS");
            assert("TRACE"@.len() != "OPTIONS"@.len());
            reveal_strlit("HEAD");
            assert("TRACE"@.len() != "HEAD"@.len());
            assert forall|i: int| 0 <= i < "TRACE"@.len() implies "TRACE"@[i] != ' ' by {}
        },
        Method::Connect => {
            reveal_strlit("CONNECT");
            reveal_strlit("GET");
            assert("CONNECT"@.len() != "GET"@.len());
            reveal_strlit("POST");
            assert("CONNECT"@.len() != "POST"@.len());
            reveal_strlit("PUT");
            assert("CONNECT"@.len() != "PUT"@.len());
            reveal_strlit("DELETE");
            assert("CONNECT"@.len() != "DELETE"@.len());
            reveal_strlit("OPTIONS");
            assert("CONNECT"@[0] != "OPTIONS"@[0]);
            reveal_strlit("HEAD");
            assert("CONNECT"@.len() != "HEAD"@.len());
            reveal_strlit("TRACE");
            assert("CONNECT"@.len() != "TRACE"@.len());
            assert forall|i: int| 0 <= i < "CONNECT"@.len() implies "CONNECT"@[i] != ' ' by {}
        },
        Method::Patch => {
            reveal_strlit("PATCH");
            reveal_strlit("GET");
            assert("PATCH"@.len() != "GET"@.len());
            reveal_strlit("POST");
            assert("PATCH"@.len() != "POST"@.len());
            reveal_strlit("PUT");
            assert("PATCH"@.len() != "PUT"@.len());
            reveal_strlit("DELETE");
            assert("PATCH"@.len() != "DELETE"@.len());
            reveal_strlit("OPTIONS");
            assert("PATCH"@.len() != "OPTIONS"@.len());
            reveal_strlit("HEAD");
            assert("PATCH"@.len() != "HEAD"@.len());
            reveal_strlit("TRACE");
            assert("PATCH"@[0] != "TRACE"@[0]);
            reveal_strlit("CONNECT");
            assert("PATCH"@.len() != "CONNECT"@.len());
            assert forall|i: int| 0 <= i < "PATCH"@.len() implies "PATCH"@[i] != ' ' by {}
        },
    }
}

} // verus!
