//! HTTP status codes, convertible to and from their numeric codes and reason phrases.

use vstd::prelude::*;

verus! {

/// An HTTP status code.
/// Converts to its numeric code and reason phrase, and back from a numeric code.
#[derive(Clone, Copy, Debug, PartialEq, Eq, Structural)]
pub enum StatusCode {
    /// `100 Continue`: Continue with request.
    Continue,
    /// `101 Switching Protocols`: Protocol upgrade.
    SwitchingProtocols,
    /// `200 OK`: Request succeeded.
    OK,
    /// `201 Created`: Resource created.
    Created,
    /// `202 Accepted`: Request received, but not yet acted upon.
    Accepted,
    /// `203 Non-Authoritative Information`: Request processed, but response is from another source.
    NonAuthoritative,
    /// `204 No Content`: There is no content to send for this request.
    NoContent,
    /// `205 Reset Content`: Indicates that the document which sent this request should be reset.
    ResetContent,
    /// `206 Partial Content`: This response only contains part of a resource.
    PartialContent,
    /// `300 Multiple Choices`: The request has multiple possible responses.
    MultipleChoices,
    /// `301 Moved Permanently`: The resource has moved permanently to a new location.
    MovedPermanently,
    /// `302 Found`: The resource has moved temporarily to a new location.
    Found,
    /// `303 See Other`: The resource can be found under a different URI.
    SeeOther,
    /// `304 Not Modified`: The resource has not been modified since the last request.
    NotModified,
    /// `305 Use Proxy`: The requested resource must be accessed through a proxy.
    UseProxy,
    /// `307 Temporary Redirect`: The resource has moved temporarily to a new location.
    TemporaryRedirect,
    /// `400 Bad Request`: The request could not be understood by the server.
    BadRequest,
    /// `401 Unauthorized`: The request requires user authentication.
    Unauthorized,
    /// `403 Forbidden`: The client is not allowed to access this content.
    Forbidden,
    /// `404 Not Found`: The server can not find the requested resource.
    NotFound,
    /// `405 Method Not Allowed`: The method specified in the request is not allowed for the resource.
    MethodNotAllowed,
    /// `406 Not Acceptable`: No content that meets the criteria is available.
    NotAcceptable,
    /// `407 Proxy Authentication Required`: The client must first authenticate itself with a proxy.
    ProxyAuthenticationRequired,
    /// `408 Request Timeout`: The server timed out waiting for the request.
    RequestTimeout,
    /// `409 Conflict`: The request could not be completed because of a conflict with the server's current state.
    Conflict,
    /// `410 Gone`: The requested resource is no longer available.
    Gone,
    /// `411 Length Required`: The request did not specify the length of its content.
    LengthRequired,
    /// `412 Precondition Failed`: The server does not meet one of the client's preconditions.
    PreconditionFailed,
    /// `413 Request Entity Too Large`: The request is larger than the server is willing or able to process.
    RequestEntityTooLarge,
    /// `414 Request-URI Too Long`: The URI provided was too long for the server to process.
    RequestURITooLong,
    /// `415 Unsupported Media Type`: The request entity has a media type which the server or resource does not support.
    UnsupportedMediaType,
    /// `416 Requested Range Not Satisfiable`: The range specified in the `Range` header cannot be fulfilled.
    RequestedRangeNotSatisfiable,
    /// `417 Expectation Failed`: The expectation given in the `Expect` header could not be met by the server.
    ExpectationFailed,
    /// `500 Internal Server Error`: The server encountered an unexpected error which prevented it from fulfilling the request.
    InternalError,
    /// `501 Not Implemented`: The server does not support the functionality required to fulfill the request.
    NotImplemented,
    /// `502 Bad Gateway`: The server, while acting as a gateway or proxy, received an invalid response from the upstream server.
    BadGateway,
    /// `503 Service Unavailable`: The server is temporarily unable to handle the request.
    ServiceUnavailable,
    /// `504 Gateway Timeout`: The server, while acting as a gateway or proxy, did not receive a timely response from the upstream server.
    GatewayTimeout,
    /// `505 HTTP Version Not Supported`: The server does not support the HTTP protocol version used in the request.
    VersionNotSupported,
}

/// The error returned when a number is not a known status code.
#[derive(Clone, Copy, Debug, PartialEq, Eq, Structural)]
pub struct StatusCodeError;

impl StatusCode {
    /// The numeric code of a status.
    pub open spec fn spec_code(self) -> u16 {
        match self {
            StatusCode::Continue => 100,
            StatusCode::SwitchingProtocols => 101,
            StatusCode::OK => 200,
            StatusCode::Created => 201,
            StatusCode::Accepted => 202,
            StatusCode::NonAuthoritative => 203,
            StatusCode::NoContent => 204,
            StatusCode::ResetContent => 205,
            StatusCode::PartialContent => 206,
            StatusCode::MultipleChoices => 300,
            StatusCode::MovedPermanently => 301,
            StatusCode::Found => 302,
            StatusCode::SeeOther => 303,
            StatusCode::NotModified => 304,
            StatusCode::UseProxy => 305,
            StatusCode::TemporaryRedirect => 307,
            StatusCode::BadRequest => 400,
            StatusCode::Unauthorized => 401,
            StatusCode::Forbidden => 403,
            StatusCode::NotFound => 404,
            StatusCode::MethodNotAllowed => 405,
            StatusCode::NotAcceptable => 406,
            StatusCode::ProxyAuthenticationRequired => 407,
            StatusCode::RequestTimeout => 408,
            StatusCode::Conflict => 409,
            StatusCode::Gone => 410,
            StatusCode::LengthRequired => 411,
            StatusCode::PreconditionFailed => 412,
            StatusCode::RequestEntityTooLarge => 413,
            StatusCode::RequestURITooLong => 414,
            StatusCode::UnsupportedMediaType => 415,
            StatusCode::RequestedRangeNotSatisfiable => 416,
            StatusCode::ExpectationFailed => 417,
            StatusCode::InternalError => 500,
            StatusCode::NotImplemented => 501,
            StatusCode::BadGateway => 502,
            StatusCode::ServiceUnavailable => 503,
            StatusCode::GatewayTimeout => 504,
            StatusCode::VersionNotSupported => 505,
        }
    }

    /// The reason phrase of a status.
    pub open spec fn spec_reason(self) -> Seq<char> {
        match self {
            StatusCode::Continue => "Continue"@,
            StatusCode::SwitchingProtocols => "Switching Protocols"@,
            StatusCode::OK => "OK"@,
            StatusCode::Created => "Created"@,
            StatusCode::Accepted => "Accepted"@,
            StatusCode::NonAuthoritative => "Non-Authoritative Information"@,
            StatusCode::NoContent => "No Content"@,
            StatusCode::ResetContent => "Reset Content"@,
            StatusCode::PartialContent => "Partial Content"@,
            StatusCode::MultipleChoices => "Multiple Choices"@,
            StatusCode::MovedPermanently => "Moved Permanently"@,
            StatusCode::Found => "Found"@,
            StatusCode::SeeOther => "See Other"@,
            StatusCode::NotModified => "Not Modified"@,
            StatusCode::UseProxy => "Use Proxy"@,
            StatusCode::TemporaryRedirect => "Temporary Redirect"@,
            StatusCode::BadRequest => "Bad Request"@,
            StatusCode::Unauthorized => "Unauthorized"@,
            StatusCode::Forbidden => "Forbidden"@,
            StatusCode::NotFound => "Not Found"@,
            StatusCode::MethodNotAllowed => "Method Not Allowed"@,
            StatusCode::NotAcceptable => "Not Acceptable"@,
            StatusCode::ProxyAuthenticationRequired => "Proxy Authentication Required"@,
            StatusCode::RequestTimeout => "Request Timeout"@,
            StatusCode::Conflict => "Conflict"@,
            StatusCode::Gone => "Gone"@,
            StatusCode::LengthRequired => "Length Required"@,
            StatusCode::PreconditionFailed => "Precondition Failed"@,
            StatusCode::RequestEntityTooLarge => "Request Entity Too Large"@,
            StatusCode::RequestURITooLong => "Request-URI Too Long"@,
            StatusCode::UnsupportedMediaType => "Unsupported Media Type"@,
            StatusCode::RequestedRangeNotSatisfiable => "Requested Range Not Satisfiable"@,
            StatusCode::ExpectationFailed => "Expectation Failed"@,
            StatusCode::InternalError => "Internal Server Error"@,
            StatusCode::NotImplemented => "Not Implemented"@,
            StatusCode::BadGateway => "Bad Gateway"@,
            StatusCode::ServiceUnavailable => "Service Unavailable"@,
            StatusCode::GatewayTimeout => "Gateway Timeout"@,
            StatusCode::VersionNotSupported => "HTTP Version Not Supported"@,
        }
    }

    /// Returns the numeric code, e.g. 404 for `NotFound`.
    pub fn code(self) -> (r: u16)
        ensures
            r == self.spec_code(),
    {
        match self {
            StatusCode::Continue => 100,
            StatusCode::SwitchingProtocols => 101,
            StatusCode::OK => 200,
            StatusCode::Created => 201,
            StatusCode::Accepted => 202,
            StatusCode::NonAuthoritative => 203,
            StatusCode::NoContent => 204,
            StatusCode::ResetContent => 205,
            StatusCode::PartialContent => 206,
            StatusCode::MultipleChoices => 300,
            StatusCode::MovedPermanently => 301,
            StatusCode::Found => 302,
            StatusCode::SeeOther => 303,
            StatusCode::NotModified => 304,
            StatusCode::UseProxy => 305,
            StatusCode::TemporaryRedirect => 307,
            StatusCode::BadRequest => 400,
            StatusCode::Unauthorized => 401,
            StatusCode::Forbidden => 403,
            StatusCode::NotFound => 404,
            StatusCode::MethodNotAllowed => 405,
            StatusCode::NotAcceptable => 406,
            StatusCode::ProxyAuthenticationRequired => 407,
            StatusCode::RequestTimeout => 408,
            StatusCode::Conflict => 409,
            StatusCode::Gone => 410,
            StatusCode::LengthRequired => 411,
            StatusCode::PreconditionFailed => 412,
            StatusCode::RequestEntityTooLarge => 413,
            StatusCode::RequestURITooLong => 414,
            StatusCode::UnsupportedMediaType => 415,
            StatusCode::RequestedRangeNotSatisfiable => 416,
            StatusCode::ExpectationFailed => 417,
            StatusCode::InternalError => 500,
            StatusCode::NotImplemented => 501,
            StatusCode::BadGateway => 502,
            StatusCode::ServiceUnavailable => 503,
            StatusCode::GatewayTimeout => 504,
            StatusCode::VersionNotSupported => 505,
        }
    }

    /// Returns the reason phrase, e.g. "Not Found" for `NotFound`.
    pub fn reason_phrase(self) -> (r: &'static str)
        ensures
            r@ == self.spec_reason(),
    {
        match self {
            StatusCode::Continue => "Continue",
            StatusCode::SwitchingProtocols => "Switching Protocols",
            StatusCode::OK => "OK",
            StatusCode::Created => "Created",
            StatusCode::Accepted => "Accepted",
            StatusCode::NonAuthoritative => "Non-Authoritative Information",
            StatusCode::NoContent => "No Content",
            StatusCode::ResetContent => "Reset Content",
            StatusCode::PartialContent => "Partial Content",
            StatusCode::MultipleChoices => "Multiple Choices",
            StatusCode::MovedPermanently => "Moved Permanently",
            StatusCode::Found => "Found",
            StatusCode::SeeOther => "See Other",
            StatusCode::NotModified => "Not Modified",
            StatusCode::UseProxy => "Use Proxy",
            StatusCode::TemporaryRedirect => "Temporary Redirect",
            StatusCode::BadRequest => "Bad Request",
            StatusCode::Unauthorized => "Unauthorized",
            StatusCode::Forbidden => "Forbidden",
            StatusCode::NotFound => "Not Found",
            StatusCode::MethodNotAllowed => "Method Not Allowed",
            StatusCode::NotAcceptable => "Not Acceptable",
            StatusCode::ProxyAuthenticationRequired => "Proxy Authentication Required",
            StatusCode::RequestTimeout => "Request Timeout",
            StatusCode::Conflict => "Conflict",
            StatusCode::Gone => "Gone",
            StatusCode::LengthRequired => "Length Required",
            StatusCode::PreconditionFailed => "Precondition Failed",
            StatusCode::RequestEntityTooLarge => "Request Entity Too Large",
            StatusCode::RequestURITooLong => "Request-URI Too Long",
            StatusCode::UnsupportedMediaType => "Unsupported Media Type",
            StatusCode::RequestedRangeNotSatisfiable => "Requested Range Not Satisfiable",
            StatusCode::ExpectationFailed => "Expectation Failed",
            StatusCode::InternalError => "Internal Server Error",
            StatusCode::NotImplemented => "Not Implemented",
            StatusCode::BadGateway => "Bad Gateway",
            StatusCode::ServiceUnavailable => "Service Unavailable",
            StatusCode::GatewayTimeout => "Gateway Timeout",
            StatusCode::VersionNotSupported => "HTTP Version Not Supported",
        }
    }
}

/// The status whose numeric code is `code`, if there is one.
pub open spec fn spec_status_from_code(code: u16) -> Option<StatusCode> {
    if code == 100 {
        Some(StatusCode::Continue)
    } else if code == 101 {
        Some(StatusCode::SwitchingProtocols)
    } else if code == 200 {
        Some(StatusCode::OK)
    } else if code == 201 {
        Some(StatusCode::Created)
    } else if code == 202 {
        Some(StatusCode::Accepted)
    } else if code == 203 {
        Some(StatusCode::NonAuthoritative)
    } else if code == 204 {
        Some(StatusCode::NoContent)
    } else if code == 205 {
        Some(StatusCode::ResetContent)
    } else if code == 206 {
        Some(StatusCode::PartialContent)
    } else if code == 300 {
        Some(StatusCode::MultipleChoices)
    } else if code == 301 {
        Some(StatusCode::MovedPermanently)
    } else if code == 302 {
        Some(StatusCode::Found)
    } else if code == 303 {
        Some(StatusCode::SeeOther)
    } else if code == 304 {
        Some(StatusCode::NotModified)
    } else if code == 305 {
        Some(StatusCode::UseProxy)
    } else if code == 307 {
        Some(StatusCode::TemporaryRedirect)
    } else if code == 400 {
        Some(StatusCode::BadRequest)
    } else if code == 401 {
        Some(StatusCode::Unauthorized)
    } else if code == 403 {
        Some(StatusCode::Forbidden)
    } else if code == 404 {
        Some(StatusCode::NotFound)
    } else if code == 405 {
        Some(StatusCode::MethodNotAllowed)
    } else if code == 406 {
        Some(StatusCode::NotAcceptable)
    } else if code == 407 {
        Some(StatusCode::ProxyAuthenticationRequired)
    } else if code == 408 {
        Some(StatusCode::RequestTimeout)
    } else if code == 409 {
        Some(StatusCode::Conflict)
    } else if code == 410 {
        Some(StatusCode::Gone)
    } else if code == 411 {
        Some(StatusCode::LengthRequired)
    } else if code == 412 {
        Some(StatusCode::PreconditionFailed)
    } else if code == 413 {
        Some(StatusCode::RequestEntityTooLarge)
    } else if code == 414 {
        Some(StatusCode::RequestURITooLong)
    } else if code == 415 {
        Some(StatusCode::UnsupportedMediaType)
    } else if code == 416 {
        Some(StatusCode::RequestedRangeNotSatisfiable)
    } else if code == 417 {
        Some(StatusCode::ExpectationFailed)
    } else if code == 500 {
        Some(StatusCode::InternalError)
    } else if code == 501 {
        Some(StatusCode::NotImplemented)
    } else if code == 502 {
        Some(StatusCode::BadGateway)
    } else if code == 503 {
        Some(StatusCode::ServiceUnavailable)
    } else if code == 504 {
        Some(StatusCode::GatewayTimeout)
    } else if code == 505 {
        Some(StatusCode::VersionNotSupported)
    } else {
        None
    }
}

impl StatusCode {
    /// Converts a numeric code into a status, failing on codes that are not known.
    pub fn from_code(code: u16) -> (r: Result<StatusCode, StatusCodeError>)
        ensures
            match spec_status_from_code(code) {
                Some(s) => r == Ok::<StatusCode, StatusCodeError>(s),
                None => r == Err::<StatusCode, StatusCodeError>(StatusCodeError),
            },
    {
        match code {
            100 => Ok(StatusCode::Continue),
            101 => Ok(StatusCode::SwitchingProtocols),
            200 => Ok(StatusCode::OK),
            201 => Ok(StatusCode::Created),
            202 => Ok(StatusCode::Accepted),
            203 => Ok(StatusCode::NonAuthoritative),
            204 => Ok(StatusCode::NoContent),
            205 => Ok(StatusCode::ResetContent),
            206 => Ok(StatusCode::PartialContent),
            300 => Ok(StatusCode::MultipleChoices),
            301 => Ok(StatusCode::MovedPermanently),
            302 => Ok(StatusCode::Found),
            303 => Ok(StatusCode::SeeOther),
            304 => Ok(StatusCode::NotModified),
            305 => Ok(StatusCode::UseProxy),
            307 => Ok(StatusCode::TemporaryRedirect),
            400 => Ok(StatusCode::BadRequest),
            401 => Ok(StatusCode::Unauthorized),
            403 => Ok(StatusCode::Forbidden),
            404 => Ok(StatusCode::NotFound),
            405 => Ok(StatusCode::MethodNotAllowed),
            406 => Ok(StatusCode::NotAcceptable),
            407 => Ok(StatusCode::ProxyAuthenticationRequired),
            408 => Ok(StatusCode::RequestTimeout),
            409 => Ok(StatusCode::Conflict),
            410 => Ok(StatusCode::Gone),
            411 => Ok(StatusCode::LengthRequired),
            412 => Ok(StatusCode::PreconditionFailed),
            413 => Ok(StatusCode::RequestEntityTooLarge),
            414 => Ok(StatusCode::RequestURITooLong),
            415 => Ok(StatusCode::UnsupportedMediaType),
            416 => Ok(StatusCode::RequestedRangeNotSatisfiable),
            417 => Ok(StatusCode::ExpectationFailed),
            500 => Ok(StatusCode::InternalError),
            501 => Ok(StatusCode::NotImplemented),
            502 => Ok(StatusCode::BadGateway),
            503 => Ok(StatusCode::ServiceUnavailable),
            504 => Ok(StatusCode::GatewayTimeout),
            505 => Ok(StatusCode::VersionNotSupported),
            _ => Err(StatusCodeError),
        }
    }
}
/// Converting a status to its code and back gives the same status.
pub proof fn lemma_status_code_roundtrip(s: StatusCode)
    ensures
        spec_status_from_code(s.spec_code()) == Some(s),
{
}

/// A code that converts to a status is that status's code.
pub proof fn lemma_code_status_roundtrip(code: u16)
    ensures
        spec_status_from_code(code) matches Some(s) ==> s.spec_code() == code,
{
}

/// The reason phrase that HTTP registers for a status number (RFC 9110 and the earlier
/// RFC 2616 phrases), for the numbers this library knows.
pub open spec fn registered_reason(code: u16) -> Option<Seq<char>> {
    if code == 100 {
        Some("Continue"@)
    } else if code == 101 {
        Some("Switching Protocols"@)
    } else if code == 200 {
        Some("OK"@)
    } else if code == 201 {
        Some("Created"@)
    } else if code == 202 {
        Some("Accepted"@)
    } else if code == 203 {
        Some("Non-Authoritative Information"@)
    } else if code == 204 {
        Some("No Content"@)
    } else if code == 205 {
        Some("Reset Content"@)
    } else if code == 206 {
        Some("Partial Content"@)
    } else if code == 300 {
        Some("Multiple Choices"@)
    } else if code == 301 {
        Some("Moved Permanently"@)
    } else if code == 302 {
        Some("Found"@)
    } else if code == 303 {
        Some("See Other"@)
    } else if code == 304 {
        Some("Not Modified"@)
    } else if code == 305 {
        Some("Use Proxy"@)
    } else if code == 307 {
        Some("Temporary Redirect"@)
    } else if code == 400 {
        Some("Bad Request"@)
    } else if code == 401 {
        Some("Unauthorized"@)
    } else if code == 403 {
        Some("Forbidden"@)
    } else if code == 404 {
        Some("Not Found"@)
    } else if code == 405 {
        Some("Method Not Allowed"@)
    } else if code == 406 {
        Some("Not Acceptable"@)
    } else if code == 407 {
        Some("Proxy Authentication Required"@)
    } else if code == 408 {
        Some("Request Timeout"@)
    } else if code == 409 {
        Some("Conflict"@)
    } else if code == 410 {
        Some("Gone"@)
    } else if code == 411 {
        Some("Length Required"@)
    } else if code == 412 {
        Some("Precondition Failed"@)
    } else if code == 413 {
        Some("Request Entity Too Large"@)
    } else if code == 414 {
        Some("Request-URI Too Long"@)
    } else if code == 415 {
        Some("Unsupported Media Type"@)
    } else if code == 416 {
        Some("Requested Range Not Satisfiable"@)
    } else if code == 417 {
        Some("Expectation Failed"@)
    } else if code == 500 {
        Some("Internal Server Error"@)
    } else if code == 501 {
        Some("Not Implemented"@)
    } else if code == 502 {
        Some("Bad Gateway"@)
    } else if code == 503 {
        Some("Service Unavailable"@)
    } else if code == 504 {
        Some("Gateway Timeout"@)
    } else if code == 505 {
        Some("HTTP Version Not Supported"@)
    } else {
        None
    }
}

/// Every status carries the number that HTTP registers for its reason phrase, so its
/// status line reads `<number> <reason>` as registered; and a number converts to a status
/// exactly when HTTP registers a reason phrase for it here, the phrase of that status.
pub proof fn lemma_status_codes_registered(s: StatusCode, code: u16)
    ensures
        registered_reason(s.spec_code()) == Some(s.spec_reason()),
        spec_status_from_code(code) is Some <==> registered_reason(code) is Some,
        spec_status_from_code(code) matches Some(t) ==> registered_reason(code) == Some(t.spec_reason()),
{
}

impl core::convert::TryFrom<u16> for StatusCode {
    type Error = StatusCodeError;

    fn try_from(code: u16) -> (r: Result<StatusCode, StatusCodeError>) {
        StatusCode::from_code(code)
    }
}

impl vstd::std_specs::convert::TryFromSpecImpl<u16> for StatusCode {
    open spec fn obeys_try_from_spec() -> bool {
        true
    }

    open spec fn try_from_spec(code: u16) -> Result<StatusCode, StatusCodeError> {
        match spec_status_from_code(code) {
            Some(s) => Ok(s),
            None => Err(StatusCodeError),
        }
    }
}

impl core::convert::From<StatusCode> for u16 {
    fn from(s: StatusCode) -> (r: u16) {
        s.code()
    }
}

impl vstd::std_specs::convert::FromSpecImpl<StatusCode> for u16 {
    open spec fn obeys_from_spec() -> bool {
        true
    }

    open spec fn from_spec(s: StatusCode) -> u16 {
        s.spec_code()
    }
}

} // verus!
