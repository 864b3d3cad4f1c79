//! Names of the headers of requests and responses.

use vstd::prelude::*;

use crate::text::{ascii_lower, owned_string, str_eq, to_ascii_lowercase};

verus! {

/// A header received in a request.
#[derive(Clone, Debug, PartialEq, Eq, Hash, PartialOrd, Ord)]
pub enum RequestHeader {
    /// Informs the server about the types of data that can be sent back.
    Accept,
    /// Informs the server about the accepted character encodings.
    AcceptCharset,
    /// Indicates the content encoding(s) understood by the client, usually compression algorithms.
    AcceptEncoding,
    /// Informs the server about the client's language(s).
    AcceptLanguage,
    /// Indicates the method that will be used for the actual request when performing an OPTIONS request.
    AccessControlRequestMethod,
    /// Provides credentials for HTTP authentication.
    Authorization,
    /// Indicates how the cache should behave.
    CacheControl,
    /// Indicates what should happen to the connection after the request is served.
    Connection,
    /// Lists any encodings used on the payload.
    ContentEncoding,
    /// Indicates the length of the payload body.
    ContentLength,
    /// Indicates the MIME type of the payload body.
    ContentType,
    /// Shares any applicable HTTP cookies with the server.
    Cookie,
    /// Indicates the date and time at which the request was sent.
    Date,
    /// Indicates any expectations that must be met by the server in order to properly serve the request.
    Expect,
    /// May contain reverse proxy information, generally not used in favour of the `X-Forwarded-For` header.
    Forwarded,
    /// Indicates the email address of the client, often used by crawlers.
    From,
    /// Specifies the host to which the request is being sent, e.g. "www.example.com".
    Host,
    /// Indicates the origin that caused the request.
    Origin,
    /// Contains backwards-compatible caching information.
    Pragma,
    /// Indicates the absolute or partial address of the page making the request.
    Referer,
    /// Indicates that the connection is to be upgraded to a different protocol, e.g. WebSocket.
    Upgrade,
    /// Informs the server of basic browser and device information.
    UserAgent,
    /// Contains the addresses of proxies through which the request has been forwarded.
    Via,
    /// Contains information about possible problems with the request.
    Warning,
    /// A header with any other name, held in lower case.
    Custom {
        /// The name of the header.
        name: String,
    },
}

/// A header sent in a response.
#[derive(Clone, Debug, PartialEq, Eq, Hash)]
pub enum ResponseHeader {
    /// Indicates whether the response can be shared with other origins.
    AccessControlAllowOrigin,
    /// Contains the time in seconds that the object has been cached.
    Age,
    /// The set of methods supported by the resource.
    Allow,
    /// Indicates how the cache should behave.
    CacheControl,
    /// Indicates what should happen to the connection after the request is served.
    Connection,
    /// Indicates whether the response is to be displayed as a webpage or downloaded directly.
    ContentDisposition,
    /// Lists any encodings used on the payload.
    ContentEncoding,
    /// Informs the client of the language of the payload body.
    ContentLanguage,
    /// Indicates the length of the payload body.
    ContentLength,
    /// Indicates an alternative location for the returned data.
    ContentLocation,
    /// Indicates the MIME type of the payload body.
    ContentType,
    /// Indicates the date and time at which the response was created.
    Date,
    /// Identifies a specific version of a resource.
    ETag,
    /// Contains the date and time at which the response is considered expired.
    Expires,
    /// Indicates the date and time at which the response was last modified.
    LastModified,
    /// Provides a means for serialising links in the headers, equivalent to the HTML `<link>` element.
    Link,
    /// Indicates the location at which the resource can be found, used for redirects.
    Location,
    /// Contains backwards-compatible caching information.
    Pragma,
    /// Contains information about the server which served the request.
    Server,
    /// Indicates that the client should set the specified cookies.
    SetCookie,
    /// Indicates the encoding used in the transfer of the payload body.
    TransferEncoding,
    /// Indicates that the connection is to be upgraded to a different protocol, e.g. WebSocket.
    Upgrade,
    /// Contains the addresses of proxies through which the response has been forwarded.
    Via,
    /// Contains information about possible problems with the response.
    Warning,
    /// A header with any other name.
    Custom {
        /// The name of the header.
        name: String,
    },
}

/// The number of named request headers; `Custom` comes after them.
pub const REQUEST_HEADER_COUNT: u8 = 24;

/// The canonical name of the named request header at the given position.
pub open spec fn request_header_name(index: nat) -> Seq<char> {
    if index == 0 {
        "Accept"@
    } else if index == 1 {
        "Accept-Charset"@
    } else if index == 2 {
        "Accept-Encoding"@
    } else if index == 3 {
        "Accept-Language"@
    } else if index == 4 {
        "Access-Control-Request-Method"@
    } else if index == 5 {
        "Authorization"@
    } else if index == 6 {
        "Cache-Control"@
    } else if index == 7 {
        "Connection"@
    } else if index == 8 {
        "Content-Encoding"@
    } else if index == 9 {
        "Content-Length"@
    } else if index == 10 {
        "Content-Type"@
    } else if index == 11 {
        "Cookie"@
    } else if index == 12 {
        "Date"@
    } else if index == 13 {
        "Expect"@
    } else if index == 14 {
        "Forwarded"@
    } else if index == 15 {
        "From"@
    } else if index == 16 {
        "Host"@
    } else if index == 17 {
        "Origin"@
    } else if index == 18 {
        "Pragma"@
    } else if index == 19 {
        "Referer"@
    } else if index == 20 {
        "Upgrade"@
    } else if index == 21 {
        "User-Agent"@
    } else if index == 22 {
        "Via"@
    } else if index == 23 {
        "Warning"@
    } else {
        Seq::empty()
    }
}

/// The position of the named request header whose lower-case name is `lower`, if any.
pub open spec fn request_header_index_of(lower: Seq<char>) -> Option<nat> {
    if lower == "accept"@ {
        Some(0nat)
    } else if lower == "accept-charset"@ {
        Some(1nat)
    } else if lower == "accept-encoding"@ {
        Some(2nat)
    } else if lower == "accept-language"@ {
        Some(3nat)
    } else if lower == "access-control-request-method"@ {
        Some(4nat)
    } else if lower == "authorization"@ {
        Some(5nat)
    } else if lower == "cache-control"@ {
        Some(6nat)
    } else if lower == "connection"@ {
        Some(7nat)
    } else if lower == "content-encoding"@ {
        Some(8nat)
    } else if lower == "content-length"@ {
        Some(9nat)
    } else if lower == "content-type"@ {
        Some(10nat)
    } else if lower == "cookie"@ {
        Some(11nat)
    } else if lower == "date"@ {
        Some(12nat)
    } else if lower == "expect"@ {
        Some(13nat)
    } else if lower == "forwarded"@ {
        Some(14nat)
    } else if lower == "from"@ {
        Some(15nat)
    } else if lower == "host"@ {
        Some(16nat)
    } else if lower == "origin"@ {
        Some(17nat)
    } else if lower == "pragma"@ {
        Some(18nat)
    } else if lower == "referer"@ {
        Some(19nat)
    } else if lower == "upgrade"@ {
        Some(20nat)
    } else if lower == "user-agent"@ {
        Some(21nat)
    } else if lower == "via"@ {
        Some(22nat)
    } else if lower == "warning"@ {
        Some(23nat)
    } else {
        None
    }
}

/// What identifies a request header: its position among the named headers
/// (`REQUEST_HEADER_COUNT` for a custom one) and its name as written out.
pub open spec fn request_header_from_spec(name: Seq<char>) -> (nat, Seq<char>) {
    let lower = ascii_lower(name);
    match request_header_index_of(lower) {
        Some(i) => (i, request_header_name(i)),
        None => (REQUEST_HEADER_COUNT as nat, lower),
    }
}

impl View for RequestHeader {
    type V = (nat, Seq<char>);

    /// The header's position and its name as written out.
    open spec fn view(&self) -> (nat, Seq<char>) {
        match self {
            RequestHeader::Accept => (0nat, "Accept"@),
            RequestHeader::AcceptCharset => (1nat, "Accept-Charset"@),
            RequestHeader::AcceptEncoding => (2nat, "Accept-Encoding"@),
            RequestHeader::AcceptLanguage => (3nat, "Accept-Language"@),
            RequestHeader::AccessControlRequestMethod => (4nat, "Access-Control-Request-Method"@),
            RequestHeader::Authorization => (5nat, "Authorization"@),
            RequestHeader::CacheControl => (6nat, "Cache-Control"@),
            RequestHeader::Connection => (7nat, "Connection"@),
            RequestHeader::ContentEncoding => (8nat, "Content-Encoding"@),
            RequestHeader::ContentLength => (9nat, "Content-Length"@),
            RequestHeader::ContentType => (10nat, "Content-Type"@),
            RequestHeader::Cookie => (11nat, "Cookie"@),
            RequestHeader::Date => (12nat, "Date"@),
            RequestHeader::Expect => (13nat, "Expect"@),
            RequestHeader::Forwarded => (14nat, "Forwarded"@),
            RequestHeader::From => (15nat, "From"@),
            RequestHeader::Host => (16nat, "Host"@),
            RequestHeader::Origin => (17nat, "Origin"@),
            RequestHeader::Pragma => (18nat, "Pragma"@),
            RequestHeader::Referer => (19nat, "Referer"@),
            RequestHeader::Upgrade => (20nat, "Upgrade"@),
            RequestHeader::UserAgent => (21nat, "User-Agent"@),
            RequestHeader::Via => (22nat, "Via"@),
            RequestHeader::Warning => (23nat, "Warning"@),
            RequestHeader::Custom { name } => (REQUEST_HEADER_COUNT as nat, name@),
        }
    }
}

impl RequestHeader {

    /// A copy of this header.
    pub fn duplicate(&self) -> (r: RequestHeader)
        ensures
            r@ == self@,
    {
        match self {
            RequestHeader::Accept => RequestHeader::Accept,
            RequestHeader::AcceptCharset => RequestHeader::AcceptCharset,
            RequestHeader::AcceptEncoding => RequestHeader::AcceptEncoding,
            RequestHeader::AcceptLanguage => RequestHeader::AcceptLanguage,
            RequestHeader::AccessControlRequestMethod => RequestHeader::AccessControlRequestMethod,
            RequestHeader::Authorization => RequestHeader::Authorization,
            RequestHeader::CacheControl => RequestHeader::CacheControl,
            RequestHeader::Connection => RequestHeader::Connection,
            RequestHeader::ContentEncoding => RequestHeader::ContentEncoding,
            RequestHeader::ContentLength => RequestHeader::ContentLength,
            RequestHeader::ContentType => RequestHeader::ContentType,
            RequestHeader::Cookie => RequestHeader::Cookie,
            RequestHeader::Date => RequestHeader::Date,
            RequestHeader::Expect => RequestHeader::Expect,
            RequestHeader::Forwarded => RequestHeader::Forwarded,
            RequestHeader::From => RequestHeader::From,
            RequestHeader::Host => RequestHeader::Host,
            RequestHeader::Origin => RequestHeader::Origin,
            RequestHeader::Pragma => RequestHeader::Pragma,
            RequestHeader::Referer => RequestHeader::Referer,
            RequestHeader::Upgrade => RequestHeader::Upgrade,
            RequestHeader::UserAgent => RequestHeader::UserAgent,
            RequestHeader::Via => RequestHeader::Via,
            RequestHeader::Warning => RequestHeader::Warning,
            RequestHeader::Custom { name } => RequestHeader::Custom { name: name.clone() },
        }
    }
    /// Reads a header name case-insensitively; a name that is not one of the named
    /// headers becomes a custom header holding the name in lower case.
    pub fn from_name(name: &str) -> (r: RequestHeader)
        ensures
            r@ == request_header_from_spec(name@),
    {
        let lower = to_ascii_lowercase(name);
        let l = lower.as_str();
        if str_eq(l, "accept") {
            RequestHeader::Accept
        } else if str_eq(l, "accept-charset") {
            RequestHeader::AcceptCharset
        } else if str_eq(l, "accept-encoding") {
            RequestHeader::AcceptEncoding
        } else if str_eq(l, "accept-language") {
            RequestHeader::AcceptLanguage
        } else if str_eq(l, "access-control-request-method") {
            RequestHeader::AccessControlRequestMethod
        } else if str_eq(l, "authorization") {
            RequestHeader::Authorization
        } else if str_eq(l, "cache-control") {
            RequestHeader::CacheControl
        } else if str_eq(l, "connection") {
            RequestHeader::Connection
        } else if str_eq(l, "content-encoding") {
            RequestHeader::ContentEncoding
        } else if str_eq(l, "content-length") {
            RequestHeader::ContentLength
        } else if str_eq(l, "content-type") {
            RequestHeader::ContentType
        } else if str_eq(l, "cookie") {
            RequestHeader::Cookie
        } else if str_eq(l, "date") {
            RequestHeader::Date
        } else if str_eq(l, "expect") {
            RequestHeader::Expect
        } else if str_eq(l, "forwarded") {
            RequestHeader::Forwarded
        } else if str_eq(l, "from") {
            RequestHeader::From
        } else if str_eq(l, "host") {
            RequestHeader::Host
        } else if str_eq(l, "origin") {
            RequestHeader::Origin
        } else if str_eq(l, "pragma") {
            RequestHeader::Pragma
        } else if str_eq(l, "referer") {
            RequestHeader::Referer
        } else if str_eq(l, "upgrade") {
            RequestHeader::Upgrade
        } else if str_eq(l, "user-agent") {
            RequestHeader::UserAgent
        } else if str_eq(l, "via") {
            RequestHeader::Via
        } else if str_eq(l, "warning") {
            RequestHeader::Warning
        } else {
            RequestHeader::Custom { name: lower }
        }
    }

    /// The name of the header as it is written in a request.
    pub fn name(&self) -> (r: String)
        ensures
            r@ == self@.1,
    {
        match self {
            RequestHeader::Accept => owned_string("Accept"),
            RequestHeader::AcceptCharset => owned_string("Accept-Charset"),
            RequestHeader::AcceptEncoding => owned_string("Accept-Encoding"),
            RequestHeader::AcceptLanguage => owned_string("Accept-Language"),
            RequestHeader::AccessControlRequestMethod => owned_string("Access-Control-Request-Method"),
            RequestHeader::Authorization => owned_string("Authorization"),
            RequestHeader::CacheControl => owned_string("Cache-Control"),
            RequestHeader::Connection => owned_string("Connection"),
            RequestHeader::ContentEncoding => owned_string("Content-Encoding"),
            RequestHeader::ContentLength => owned_string("Content-Length"),
            RequestHeader::ContentType => owned_string("Content-Type"),
            RequestHeader::Cookie => owned_string("Cookie"),
            RequestHeader::Date => owned_string("Date"),
            RequestHeader::Expect => owned_string("Expect"),
            RequestHeader::Forwarded => owned_string("Forwarded"),
            RequestHeader::From => owned_string("From"),
            RequestHeader::Host => owned_string("Host"),
            RequestHeader::Origin => owned_string("Origin"),
            RequestHeader::Pragma => owned_string("Pragma"),
            RequestHeader::Referer => owned_string("Referer"),
            RequestHeader::Upgrade => owned_string("Upgrade"),
            RequestHeader::UserAgent => owned_string("User-Agent"),
            RequestHeader::Via => owned_string("Via"),
            RequestHeader::Warning => owned_string("Warning"),
            RequestHeader::Custom { name } => name.clone(),
        }
    }

    /// The position of the header among the named headers; `REQUEST_HEADER_COUNT` for a
    /// custom header.
    pub fn rank(&self) -> (r: u8)
        ensures
            r as nat == self@.0,
    {
        match self {
            RequestHeader::Accept => 0,
            RequestHeader::AcceptCharset => 1,
            RequestHeader::AcceptEncoding => 2,
            RequestHeader::AcceptLanguage => 3,
            RequestHeader::AccessControlRequestMethod => 4,
            RequestHeader::Authorization => 5,
            RequestHeader::CacheControl => 6,
            RequestHeader::Connection => 7,
            RequestHeader::ContentEncoding => 8,
            RequestHeader::ContentLength => 9,
            RequestHeader::ContentType => 10,
            RequestHeader::Cookie => 11,
            RequestHeader::Date => 12,
            RequestHeader::Expect => 13,
            RequestHeader::Forwarded => 14,
            RequestHeader::From => 15,
            RequestHeader::Host => 16,
            RequestHeader::Origin => 17,
            RequestHeader::Pragma => 18,
            RequestHeader::Referer => 19,
            RequestHeader::Upgrade => 20,
            RequestHeader::UserAgent => 21,
            RequestHeader::Via => 22,
            RequestHeader::Warning => 23,
            RequestHeader::Custom { .. } => REQUEST_HEADER_COUNT,
        }
    }
}

/// The canonical name of the named response header at the given position.
pub open spec fn response_header_name(index: nat) -> Seq<char> {
    if index == 0 {
        "Access-Control-Allow-Origin"@
    } else if index == 1 {
        "Age"@
    } else if index == 2 {
        "Allow"@
    } else if index == 3 {
        "Cache-Control"@
    } else if index == 4 {
        "Connection"@
    } else if index == 5 {
        "Content-Disposition"@
    } else if index == 6 {
        "Content-Encoding"@
    } else if index == 7 {
        "Content-Language"@
    } else if index == 8 {
        "Content-Length"@
    } else if index == 9 {
        "Content-Location"@
    } else if index == 10 {
        "Content-Type"@
    } else if index == 11 {
        "Date"@
    } else if index == 12 {
        "ETag"@
    } else if index == 13 {
        "Expires"@
    } else if index == 14 {
        "Last-Modified"@
    } else if index == 15 {
        "Link"@
    } else if index == 16 {
        "Location"@
    } else if index == 17 {
        "Pragma"@
    } else if index == 18 {
        "Server"@
    } else if index == 19 {
        "Set-Cookie"@
    } else if index == 20 {
        "Transfer-Encoding"@
    } else if index == 21 {
        "Upgrade"@
    } else if index == 22 {
        "Via"@
    } else if index == 23 {
        "Warning"@
    } else {
        Seq::empty()
    }
}

/// The position of the named response header with exactly this name, if any.
pub open spec fn response_header_index_of(name: Seq<char>) -> Option<nat> {
    if name == "Access-Control-Allow-Origin"@ {
        Some(0nat)
    } else if name == "Age"@ {
        Some(1nat)
    } else if name == "Allow"@ {
        Some(2nat)
    } else if name == "Cache-Control"@ {
        Some(3nat)
    } else if name == "Connection"@ {
        Some(4nat)
    } else if name == "Content-Disposition"@ {
        Some(5nat)
    } else if name == "Content-Encoding"@ {
        Some(6nat)
    } else if name == "Content-Language"@ {
        Some(7nat)
    } else if name == "Content-Length"@ {
        Some(8nat)
    } else if name == "Content-Location"@ {
        Some(9nat)
    } else if name == "Content-Type"@ {
        Some(10nat)
    } else if name == "Date"@ {
        Some(11nat)
    } else if name == "ETag"@ {
        Some(12nat)
    } else if name == "Expires"@ {
        Some(13nat)
    } else if name == "Last-Modified"@ {
        Some(14nat)
    } else if name == "Link"@ {
        Some(15nat)
    } else if name == "Location"@ {
        Some(16nat)
    } else if name == "Pragma"@ {
        Some(17nat)
    } else if name == "Server"@ {
        Some(18nat)
    } else if name == "Set-Cookie"@ {
        Some(19nat)
    } else if name == "Transfer-Encoding"@ {
        Some(20nat)
    } else if name == "Upgrade"@ {
        Some(21nat)
    } else if name == "Via"@ {
        Some(22nat)
    } else if name == "Warning"@ {
        Some(23nat)
    } else {
        None
    }
}

/// The number of named response headers; `Custom` comes after them.
pub const RESPONSE_HEADER_COUNT: u8 = 24;

/// What identifies a response header: its position among the named headers
/// (`RESPONSE_HEADER_COUNT` for a custom one) and its name as written out.
pub open spec fn response_header_from_spec(name: Seq<char>) -> (nat, Seq<char>) {
    match response_header_index_of(name) {
        Some(i) => (i, response_header_name(i)),
        None => (RESPONSE_HEADER_COUNT as nat, name),
    }
}

/// The category of a response header, as in RFC 2616 section 4.2, which orders the
/// headers of a response: general (0), response (1), entity (2), then others (3).
pub open spec fn response_header_category(index: nat) -> u8 {
    if index == 0 {
        3
    } else if index == 1 {
        1
    } else if index == 2 {
        2
    } else if index == 3 {
        0
    } else if index == 4 {
        0
    } else if index == 5 {
        2
    } else if index == 6 {
        2
    } else if index == 7 {
        2
    } else if index == 8 {
        2
    } else if index == 9 {
        2
    } else if index == 10 {
        2
    } else if index == 11 {
        0
    } else if index == 12 {
        1
    } else if index == 13 {
        2
    } else if index == 14 {
        2
    } else if index == 15 {
        3
    } else if index == 16 {
        1
    } else if index == 17 {
        0
    } else if index == 18 {
        1
    } else if index == 19 {
        3
    } else if index == 20 {
        2
    } else if index == 21 {
        0
    } else if index == 22 {
        0
    } else if index == 23 {
        0
    } else {
        3
    }
}

impl View for ResponseHeader {
    type V = (nat, Seq<char>);

    /// The header's position and its name as written out.
    open spec fn view(&self) -> (nat, Seq<char>) {
        match self {
            ResponseHeader::AccessControlAllowOrigin => (0nat, "Access-Control-Allow-Origin"@),
            ResponseHeader::Age => (1nat, "Age"@),
            ResponseHeader::Allow => (2nat, "Allow"@),
            ResponseHeader::CacheControl => (3nat, "Cache-Control"@),
            ResponseHeader::Connection => (4nat, "Connection"@),
            ResponseHeader::ContentDisposition => (5nat, "Content-Disposition"@),
            ResponseHeader::ContentEncoding => (6nat, "Content-Encoding"@),
            ResponseHeader::ContentLanguage => (7nat, "Content-Language"@),
            ResponseHeader::ContentLength => (8nat, "Content-Length"@),
            ResponseHeader::ContentLocation => (9nat, "Content-Location"@),
            ResponseHeader::ContentType => (10nat, "Content-Type"@),
            ResponseHeader::Date => (11nat, "Date"@),
            ResponseHeader::ETag => (12nat, "ETag"@),
            ResponseHeader::Expires => (13nat, "Expires"@),
            ResponseHeader::LastModified => (14nat, "Last-Modified"@),
            ResponseHeader::Link => (15nat, "Link"@),
            ResponseHeader::Location => (16nat, "Location"@),
            ResponseHeader::Pragma => (17nat, "Pragma"@),
            ResponseHeader::Server => (18nat, "Server"@),
            ResponseHeader::SetCookie => (19nat, "Set-Cookie"@),
            ResponseHeader::TransferEncoding => (20nat, "Transfer-Encoding"@),
            ResponseHeader::Upgrade => (21nat, "Upgrade"@),
            ResponseHeader::Via => (22nat, "Via"@),
            ResponseHeader::Warning => (23nat, "Warning"@),
            ResponseHeader::Custom { name } => (RESPONSE_HEADER_COUNT as nat, name@),
        }
    }
}

impl ResponseHeader {

    /// A copy of this header.
    pub fn duplicate(&self) -> (r: ResponseHeader)
        ensures
            r@ == self@,
    {
        match self {
            ResponseHeader::AccessControlAllowOrigin => ResponseHeader::AccessControlAllowOrigin,
            ResponseHeader::Age => ResponseHeader::Age,
            ResponseHeader::Allow => ResponseHeader::Allow,
            ResponseHeader::CacheControl => ResponseHeader::CacheControl,
            ResponseHeader::Connection => ResponseHeader::Connection,
            ResponseHeader::ContentDisposition => ResponseHeader::ContentDisposition,
            ResponseHeader::ContentEncoding => ResponseHeader::ContentEncoding,
            ResponseHeader::ContentLanguage => ResponseHeader::ContentLanguage,
            ResponseHeader::ContentLength => ResponseHeader::ContentLength,
            ResponseHeader::ContentLocation => ResponseHeader::ContentLocation,
            ResponseHeader::ContentType => ResponseHeader::ContentType,
            ResponseHeader::Date => ResponseHeader::Date,
            ResponseHeader::ETag => ResponseHeader::ETag,
            ResponseHeader::Expires => ResponseHeader::Expires,
            ResponseHeader::LastModified => ResponseHeader::LastModified,
            ResponseHeader::Link => ResponseHeader::Link,
            ResponseHeader::Location => ResponseHeader::Location,
            ResponseHeader::Pragma => ResponseHeader::Pragma,
            ResponseHeader::Server => ResponseHeader::Server,
            ResponseHeader::SetCookie => ResponseHeader::SetCookie,
            ResponseHeader::TransferEncoding => ResponseHeader::TransferEncoding,
            ResponseHeader::Upgrade => ResponseHeader::Upgrade,
            ResponseHeader::Via => ResponseHeader::Via,
            ResponseHeader::Warning => ResponseHeader::Warning,
            ResponseHeader::Custom { name } => ResponseHeader::Custom { name: name.clone() },
        }
    }
    /// Reads a response header name; names are matched exactly, and any other name
    /// becomes a custom header.
    pub fn from_name(name: &str) -> (r: ResponseHeader)
        ensures
            r@ == response_header_from_spec(name@),
    {
        if str_eq(name, "Access-Control-Allow-Origin") {
            ResponseHeader::AccessControlAllowOrigin
        } else if str_eq(name, "Age") {
            ResponseHeader::Age
        } else if str_eq(name, "Allow") {
            ResponseHeader::Allow
        } else if str_eq(name, "Cache-Control") {
            ResponseHeader::CacheControl
        } else if str_eq(name, "Connection") {
            ResponseHeader::Connection
        } else if str_eq(name, "Content-Disposition") {
            ResponseHeader::ContentDisposition
        } else if str_eq(name, "Content-Encoding") {
            ResponseHeader::ContentEncoding
        } else if str_eq(name, "Content-Language") {
            ResponseHeader::ContentLanguage
        } else if str_eq(name, "Content-Length") {
            ResponseHeader::ContentLength
        } else if str_eq(name, "Content-Location") {
            ResponseHeader::ContentLocation
        } else if str_eq(name, "Content-Type") {
            ResponseHeader::ContentType
        } else if str_eq(name, "Date") {
            ResponseHeader::Date
        } else if str_eq(name, "ETag") {
            ResponseHeader::ETag
        } else if str_eq(name, "Expires") {
            ResponseHeader::Expires
        } else if str_eq(name, "Last-Modified") {
            ResponseHeader::LastModified
        } else if str_eq(name, "Link") {
            ResponseHeader::Link
        } else if str_eq(name, "Location") {
            ResponseHeader::Location
        } else if str_eq(name, "Pragma") {
            ResponseHeader::Pragma
        } else if str_eq(name, "Server") {
            ResponseHeader::Server
        } else if str_eq(name, "Set-Cookie") {
            ResponseHeader::SetCookie
        } else if str_eq(name, "Transfer-Encoding") {
            ResponseHeader::TransferEncoding
        } else if str_eq(name, "Upgrade") {
            ResponseHeader::Upgrade
        } else if str_eq(name, "Via") {
            ResponseHeader::Via
        } else if str_eq(name, "Warning") {
            ResponseHeader::Warning
        } else {
            ResponseHeader::Custom { name: owned_string(name) }
        }
    }

    /// The name of the header as it is written in a response.
    pub fn name(&self) -> (r: String)
        ensures
            r@ == self@.1,
    {
        match self {
            ResponseHeader::AccessControlAllowOrigin => owned_string("Access-Control-Allow-Origin"),
            ResponseHeader::Age => owned_string("Age"),
            ResponseHeader::Allow => owned_string("Allow"),
            ResponseHeader::CacheControl => owned_string("Cache-Control"),
            ResponseHeader::Connection => owned_string("Connection"),
            ResponseHeader::ContentDisposition => owned_string("Content-Disposition"),
            ResponseHeader::ContentEncoding => owned_string("Content-Encoding"),
            ResponseHeader::ContentLanguage => owned_string("Content-Language"),
            ResponseHeader::ContentLength => owned_string("Content-Length"),
            ResponseHeader::ContentLocation => owned_string("Content-Location"),
            ResponseHeader::ContentType => owned_string("Content-Type"),
            ResponseHeader::Date => owned_string("Date"),
            ResponseHeader::ETag => owned_string("ETag"),
            ResponseHeader::Expires => owned_string("Expires"),
            ResponseHeader::LastModified => owned_string("Last-Modified"),
            ResponseHeader::Link => owned_string("Link"),
            ResponseHeader::Location => owned_string("Location"),
            ResponseHeader::Pragma => owned_string("Pragma"),
            ResponseHeader::Server => owned_string("Server"),
            ResponseHeader::SetCookie => owned_string("Set-Cookie"),
            ResponseHeader::TransferEncoding => owned_string("Transfer-Encoding"),
            ResponseHeader::Upgrade => owned_string("Upgrade"),
            ResponseHeader::Via => owned_string("Via"),
            ResponseHeader::Warning => owned_string("Warning"),
            ResponseHeader::Custom { name } => name.clone(),
        }
    }

    /// The category that orders this header within a response.
    pub fn category(&self) -> (r: u8)
        ensures
            r == response_header_category(self@.0),
    {
        match self {
            ResponseHeader::AccessControlAllowOrigin => 3,
            ResponseHeader::Age => 1,
            ResponseHeader::Allow => 2,
            ResponseHeader::CacheControl => 0,
            ResponseHeader::Connection => 0,
            ResponseHeader::ContentDisposition => 2,
            ResponseHeader::ContentEncoding => 2,
            ResponseHeader::ContentLanguage => 2,
            ResponseHeader::ContentLength => 2,
            ResponseHeader::ContentLocation => 2,
            ResponseHeader::ContentType => 2,
            ResponseHeader::Date => 0,
            ResponseHeader::ETag => 1,
            ResponseHeader::Expires => 2,
            ResponseHeader::LastModified => 2,
            ResponseHeader::Link => 3,
            ResponseHeader::Location => 1,
            ResponseHeader::Pragma => 0,
            ResponseHeader::Server => 1,
            ResponseHeader::SetCookie => 3,
            ResponseHeader::TransferEncoding => 2,
            ResponseHeader::Upgrade => 0,
            ResponseHeader::Via => 0,
            ResponseHeader::Warning => 0,
            ResponseHeader::Custom { .. } => 3,
        }
    }
}

/// A header name together with its value.
#[derive(Clone, Debug, PartialEq, Eq)]
pub struct Header {
    /// The name of the header.
    pub name: String,
    /// The value of the header.
    pub value: String,
}

impl Header {
    /// Creates a header with the given name and value.
    pub fn new(name: &str, value: &str) -> (r: Header)
        ensures
            r.name@ == name@,
            r.value@ == value@,
    {
        Header { name: owned_string(name), value: owned_string(value) }
    }
}

} // verus!
verus! {

/// The exact name of a named response header gives its position back.
pub proof fn lemma_response_header_index_roundtrip(i: nat)
    requires
        i < RESPONSE_HEADER_COUNT,
    ensures
        response_header_index_of(response_header_name(i)) == Some(i),
{
    if i == 0 {
        reveal_strlit("Access-Control-Allow-Origin");
    } else if i == 1 {
        reveal_strlit("Age");
        reveal_strlit("Access-Control-Allow-Origin");
        assert("Age"@.len() != "Access-Control-Allow-Origin"@.len());
    } else if i == 2 {
        reveal_strlit("Allow");
        reveal_strlit("Access-Control-Allow-Origin");
        assert("Allow"@.len() != "Access-Control-Allow-Origin"@.len());
        reveal_strlit("Age");
        assert("Allow"@.len() != "Age"@.len());
    } else if i == 3 {
        reveal_strlit("Cache-Control");
        reveal_strlit("Access-Control-Allow-Origin");
        assert("Cache-Control"@.len() != "Access-Control-Allow-Origin"@.len());
        reveal_strlit("Age");
        assert("Cache-Control"@.len() != "Age"@.len());
        reveal_strlit("Allow");
        assert("Cache-Control"@.len() != "Allow"@.len());
    } else if i == 4 {
        reveal_strlit("Connection");
        reveal_strlit("Access-Control-Allow-Origin");
        assert("Connection"@.len() != "Access-Control-Allow-Origin"@.len());
        reveal_strlit("Age");
        assert("Connection"@.len() != "Age"@.len());
        reveal_strlit("Allow");
        assert("Connection"@.len() != "Allow"@.len());
        reveal_strlit("Cache-Control");
        assert("Connection"@.len() != "Cache-Control"@.len());
    } else if i == 5 {
        reveal_strlit("Content-Disposition");
        reveal_strlit("Access-Control-Allow-Origin");
        assert("Content-Disposition"@.len() != "Access-Control-Allow-Origin"@.len());
        reveal_strlit("Age");
        assert("Content-Disposition"@.len() != "Age"@.len());
        reveal_strlit("Allow");
        assert("Content-Disposition"@.len() != "Allow"@.len());
        reveal_strlit("Cache-Control");
        assert("Content-Disposition"@.len() != "Cache-Control"@.len());
        reveal_strlit("Connection");
        assert("Content-Disposition"@.len() != "Connection"@.len());
    } else if i == 6 {
        reveal_strlit("Content-Encoding");
        reveal_strlit("Access-Control-Allow-Origin");
        assert("Content-Encoding"@.len() != "Access-Control-Allow-Origin"@.len());
        reveal_strlit("Age");
        assert("Content-Encoding"@.len() != "Age"@.len());
        reveal_strlit("Allow");
        assert("Content-Encoding"@.len() != "Allow"@.len());
        reveal_strlit("Cache-Control");
        assert("Content-Encoding"@.len() != "Cache-Control"@.len());
        reveal_strlit("Connection");
        assert("Content-Encoding"@.len() != "Connection"@.len());
        reveal_strlit("Content-Disposition");
        assert("Content-Encoding"@.len() != "Content-Disposition"@.len());
    } else if i == 7 {
        reveal_strlit("Content-Language");
        reveal_strlit("Access-Control-Allow-Origin");
        assert("Content-Language"@.len() != "Access-Control-Allow-Origin"@.len());
        reveal_strlit("Age");
        assert("Content-Language"@.len() != "Age"@.len());
        reveal_strlit("Allow");
        assert("Content-Language"@.len() != "Allow"@.len());
        reveal_strlit("Cache-Control");
        assert("Content-Language"@.len() != "Cache-Control"@.len());
        reveal_strlit("Connection");
        assert("Content-Language"@.len() != "Connection"@.len());
        reveal_strlit("Content-Disposition");
        assert("Content-Language"@.len() != "Content-Disposition"@.len());
        reveal_strlit("Content-Encoding");
        assert("Content-Language"@[8] != "Content-Encoding"@[8]);
    } else if i == 8 {
        reveal_strlit("Content-Length");
        reveal_strlit("Access-Control-Allow-Origin");
        assert("Content-Length"@.len() != "Access-Control-Allow-Origin"@.len());
        reveal_strlit("Age");
        assert("Content-Length"@.len() != "Age"@.len());
        reveal_strlit("Allow");
        assert("Content-Length"@.len() != "Allow"@.len());
        reveal_strlit("Cache-Control");
        assert("Content-Length"@.len() != "Cache-Control"@.len());
        reveal_strlit("Connection");
        assert("Content-Length"@.len() != "Connection"@.len());
        reveal_strlit("Content-Disposition");
        assert("Content-Length"@.len() != "Content-Disposition"@.len());
        reveal_strlit("Content-Encoding");
        assert("Content-Length"@.len() != "Content-Encoding"@.len());
        reveal_strlit("Content-Language");
        assert("Content-Length"@.len() != "Content-Language"@.len());
    } else if i == 9 {
        reveal_strlit("Content-Location");
        reveal_strlit("Access-Control-Allow-Origin");
        assert("Content-Location"@.len() != "Access-Control-Allow-Origin"@.len());
        reveal_strlit("Age");
        assert("Content-Location"@.len() != "Age"@.len());
        reveal_strlit("Allow");
        assert("Content-Location"@.len() != "Allow"@.len());
        reveal_strlit("Cache-Control");
        assert("Content-Location"@.len() != "Cache-Control"@.len());
        reveal_strlit("Connection");
        assert("Content-Location"@.len() != "Connection"@.len());
        reveal_strlit("Content-Disposition");
        assert("Content-Location"@.len() != "Content-Disposition"@.len());
        reveal_strlit("Content-Encoding");
        assert("Content-Location"@[8] != "Content-Encoding"@[8]);
        reveal_strlit("Content-Language");
        assert("Content-Location"@[9] != "Content-Language"@[9]);
        reveal_strlit("Content-Length");
        assert("Content-Location"@.len() != "Content-Length"@.len());
    } else if i == 10 {
        reveal_strlit("Content-Type");
        reveal_strlit("Access-Control-Allow-Origin");
        assert("Content-Type"@.len() != "Access-Control-Allow-Origin"@.len());
        reveal_strlit("Age");
        assert("Content-Type"@.len() != "Age"@.len());
        reveal_strlit("Allow");
        assert("Content-Type"@.len() != "Allow"@.len());
        reveal_strlit("Cache-Control");
        assert("Content-Type"@.len() != "Cache-Control"@.len());
        reveal_strlit("Connection");
        assert("Content-Type"@.len() != "Connection"@.len());
        reveal_strlit("Content-Disposition");
        assert("Content-Type"@.len() != "Content-Disposition"@.len());
        reveal_strlit("Content-Encoding");
        assert("Content-Type"@.len() != "Content-Encoding"@.len());
        reveal_strlit("Content-Language");
        assert("Content-Type"@.len() != "Content-Language"@.len());
        reveal_strlit("Content-Length");
        assert("Content-Type"@.len() != "Content-Length"@.len());
        reveal_strlit("Content-Location");
        assert("Content-Type"@.len() != "Content-Location"@.len());
    } else if i == 11 {
        reveal_strlit("Date");
        reveal_strlit("Access-Control-Allow-Origin");
        assert("Date"@.len() != "Access-Control-Allow-Origin"@.len());
        reveal_strlit("Age");
        assert("Date"@.len() != "Age"@.len());
        reveal_strlit("Allow");
        assert("Date"@.len() != "Allow"@.len());
        reveal_strlit("Cache-Control");
        assert("Date"@.len() != "Cache-Control"@.len());
        reveal_strlit("Connection");
        assert("Date"@.len() != "Connection"@.len());
        reveal_strlit("Content-Disposition");
        assert("Date"@.len() != "Content-Disposition"@.len());
        reveal_strlit("Content-Encoding");
        assert("Date"@.len() != "Content-Encoding"@.len());
        reveal_strlit("Content-Language");
        assert("Date"@.len() != "Content-Language"@.len());
        reveal_strlit("Content-Length");
        assert("Date"@.len() != "Content-Length"@.len());
        reveal_strlit("Content-Location");
        assert("Date"@.len() != "Content-Location"@.len());
        reveal_strlit("Content-Type");
        assert("Date"@.len() != "Content-Type"@.len());
    } else if i == 12 {
        reveal_strlit("ETag");
        reveal_strlit("Access-Control-Allow-Origin");
        assert("ETag"@.len() != "Access-Control-Allow-Origin"@.len());
        reveal_strlit("Age");
        assert("ETag"@.len() != "Age"@.len());
        reveal_strlit("Allow");
        assert("ETag"@.len() != "Allow"@.len());
        reveal_strlit("Cache-Control");
        assert("ETag"@.len() != "Cache-Control"@.len());
        reveal_strlit("Connection");
        assert("ETag"@.len() != "Connection"@.len());
        reveal_strlit("Content-Disposition");
        assert("ETag"@.len() != "Content-Disposition"@.len());
        reveal_strlit("Content-Encoding");
        assert("ETag"@.len() != "Content-Encoding"@.len());
        reveal_strlit("Content-Language");
        assert("ETag"@.len() != "Content-Language"@.len());
        reveal_strlit("Content-Length");
        assert("ETag"@.len() != "Content-Length"@.len());
        reveal_strlit("Content-Location");
        assert("ETag"@.len() != "Content-Location"@.len());
        reveal_strlit("Content-Type");
        assert("ETag"@.len() != "Content-Type"@.len());
        reveal_strlit("Date");
        assert("ETag"@[0] != "Date"@[0]);
    } else if i == 13 {
        reveal_strlit("Expires");
        reveal_strlit("Access-Control-Allow-Origin");
        assert("Expires"@.len() != "Access-Control-Allow-Origin"@.len());
        reveal_strlit("Age");
        assert("Expires"@.len() != "Age"@.len());
        reveal_strlit("Allow");
        assert("Expires"@.len() != "Allow"@.len());
        reveal_strlit("Cache-Control");
        assert("Expires"@.len() != "Cache-Control"@.len());
        reveal_strlit("Connection");
        assert("Expires"@.len() != "Connection"@.len());
        reveal_strlit("Content-Disposition");
        assert("Expires"@.len() != "Content-Disposition"@.len());
        reveal_strlit("Content-Encoding");
        assert("Expires"@.len() != "Content-Encoding"@.len());
        reveal_strlit("Content-Language");
        assert("Expires"@.len() != "Content-Language"@.len());
        reveal_strlit("Content-Length");
        assert("Expires"@.len() != "Content-Length"@.len());
        reveal_strlit("Content-Location");
        assert("Expires"@.len() != "Content-Location"@.len());
        reveal_strlit("Content-Type");
        assert("Expires"@.len() != "Content-Type"@.len());
        reveal_strlit("Date");
        assert("Expires"@.len() != "Date"@.len());
        reveal_strlit("ETag");
        assert("Expires"@.len() != "ETag"@.len());
    } else if i == 14 {
        reveal_strlit("Last-Modified");
        reveal_strlit("Access-Control-Allow-Origin");
        assert("Last-Modified"@.len() != "Access-Control-Allow-Origin"@.len());
        reveal_strlit("Age");
        assert("Last-Modified"@.len() != "Age"@.len());
        reveal_strlit("Allow");
        assert("Last-Modified"@.len() != "Allow"@.len());
        reveal_strlit("Cache-Control");
        assert("Last-Modified"@[0] != "Cache-Control"@[0]);
        reveal_strlit("Connection");
        assert("Last-Modified"@.len() != "Connection"@.len());
        reveal_strlit("Content-Disposition");
        assert("Last-Modified"@.len() != "Content-Disposition"@.len());
        reveal_strlit("Content-Encoding");
        assert("Last-Modified"@.len() != "Content-Encoding"@.len());
        reveal_strlit("Content-Language");
        assert("Last-Modified"@.len() != "Content-Language"@.len());
        reveal_strlit("Content-Length");
        assert("Last-Modified"@.len() != "Content-Length"@.len());
        reveal_strlit("Content-Location");
        assert("Last-Modified"@.len() != "Content-Location"@.len());
        reveal_strlit("Content-Type");
        assert("Last-Modified"@.len() != "Content-Type"@.len());
        reveal_strlit("Date");
        assert("Last-Modified"@.len() != "Date"@.len());
        reveal_strlit("ETag");
        assert("Last-Modified"@.len() != "ETag"@.len());
        reveal_strlit("Expires");
        assert("Last-Modified"@.len() != "Expires"@.len());
    } else if i == 15 {
        reveal_strlit("Link");
        reveal_strlit("Access-Control-Allow-Origin");
        assert("Link"@.len() != "Access-Control-Allow-Origin"@.len());
        reveal_strlit("Age");
        assert("Link"@.len() != "Age"@.len());
        reveal_strlit("Allow");
        assert("Link"@.len() != "Allow"@.len());
        reveal_strlit("Cache-Control");
        assert("Link"@.len() != "Cache-Control"@.len());
        reveal_strlit("Connection");
        assert("Link"@.len() != "Connection"@.len());
        reveal_strlit("Content-Disposition");
        assert("Link"@.len() != "Content-Disposition"@.len());
        reveal_strlit("Content-Encoding");
        assert("Link"@.len() != "Content-Encoding"@.len());
        reveal_strlit("Content-Language");
        assert("Link"@.len() != "Content-Language"@.len());
        reveal_strlit("Content-Length");
        assert("Link"@.len() != "Content-Length"@.len());
        reveal_strlit("Content-Location");
        assert("Link"@.len() != "Content-Location"@.len());
        reveal_strlit("Content-Type");
        assert("Link"@.len() != "Content-Type"@.len());
        reveal_strlit("Date");
        assert("Link"@[0] != "Date"@[0]);
        reveal_strlit("ETag");
        assert("Link"@[0] != "ETag"@[0]);
        reveal_strlit("Expires");
        assert("Link"@.len() != "Expires"@.len());
        reveal_strlit("Last-Modified");
        assert("Link"@.len() != "Last-Modified"@.len());
    } else if i == 16 {
        reveal_strlit("Location");
        reveal_strlit("Access-Control-Allow-Origin");
        assert("Location"@.len() != "Access-Control-Allow-Origin"@.len());
        reveal_strlit("Age");
        assert("Location"@.len() != "Age"@.len());
        reveal_strlit("Allow");
        assert("Location"@.len() != "Allow"@.len());
        reveal_strlit("Cache-Control");
        assert("Location"@.len() != "Cache-Control"@.len());
        reveal_strlit("Connection");
        assert("Location"@.len() != "Connection"@.len());
        reveal_strlit("Content-Disposition");
        assert("Location"@.len() != "Content-Disposition"@.len());
        reveal_strlit("Content-Encoding");
        assert("Location"@.len() != "Content-Encoding"@.len());
        reveal_strlit("Content-Language");
        assert("Location"@.len() != "Content-Language"@.len());
        reveal_strlit("Content-Length");
        assert("Location"@.len() != "Content-Length"@.len());
        reveal_strlit("Content-Location");
        assert("Location"@.len() != "Content-Location"@.len());
        reveal_strlit("Content-Type");
        assert("Location"@.len() != "Content-Type"@.len());
        reveal_strlit("Date");
        assert("Location"@.len() != "Date"@.len());
        reveal_strlit("ETag");
        assert("Location"@.len() != "ETag"@.len());
        reveal_strlit("Expires");
        assert("Location"@.len() != "Expires"@.len());
        reveal_strlit("Last-Modified");
        assert("Location"@.len() != "Last-Modified"@.len());
        reveal_strlit("Link");
        assert("Location"@.len() != "Link"@.len());
    } else if i == 17 {
        reveal_strlit("Pragma");
        reveal_strlit("Access-Control-Allow-Origin");
        assert("Pragma"@.len() != "Access-Control-Allow-Origin"@.len());
        reveal_strlit("Age");
        assert("Pragma"@.len() != "Age"@.len());
        reveal_strlit("Allow");
        assert("Pragma"@.len() != "Allow"@.len());
        reveal_strlit("Cache-Control");
        assert("Pragma"@.len() != "Cache-Control"@.len());
        reveal_strlit("Connection");
        assert("Pragma"@.len() != "Connection"@.len());
        reveal_strlit("Content-Disposition");
        assert("Pragma"@.len() != "Content-Disposition"@.len());
        reveal_strlit("Content-Encoding");
        assert("Pragma"@.len() != "Content-Encoding"@.len());
        reveal_strlit("Content-Language");
        assert("Pragma"@.len() != "Content-Language"@.len());
        reveal_strlit("Content-Length");
        assert("Pragma"@.len() != "Content-Length"@.len());
        reveal_strlit("Content-Location");
        assert("Pragma"@.len() != "Content-Location"@.len());
        reveal_strlit("Content-Type");
        assert("Pragma"@.len() != "Content-Type"@.len());
        reveal_strlit("Date");
        assert("Pragma"@.len() != "Date"@.len());
        reveal_strlit("ETag");
        assert("Pragma"@.len() != "ETag"@.len());
        reveal_strlit("Expires");
        assert("Pragma"@.len() != "Expires"@.len());
        reveal_strlit("Last-Modified");
        assert("Pragma"@.len() != "Last-Modified"@.len());
        reveal_strlit("Link");
        assert("Pragma"@.len() != "Link"@.len());
        reveal_strlit("Location");
        assert("Pragma"@.len() != "Location"@.len());
    } else if i == 18 {
        reveal_strlit("Server");
        reveal_strlit("Access-Control-Allow-Origin");
        assert("Server"@.len() != "Access-Control-Allow-Origin"@.len());
        reveal_strlit("Age");
        assert("Server"@.len() != "Age"@.len());
        reveal_strlit("Allow");
        assert("Server"@.len() != "Allow"@.len());
        reveal_strlit("Cache-Control");
        assert("Server"@.len() != "Cache-Control"@.len());
        reveal_strlit("Connection");
        assert("Server"@.len() != "Connection"@.len());
        reveal_strlit("Content-Disposition");
        assert("Server"@.len() != "Content-Disposition"@.len());
        reveal_strlit("Content-Encoding");
        assert("Server"@.len() != "Content-Encoding"@.len());
        reveal_strlit("Content-Language");
        assert("Server"@.len() != "Content-Language"@.len());
        reveal_strlit("Content-Length");
        assert("Server"@.len() != "Content-Length"@.len());
        reveal_strlit("Content-Location");
        assert("Server"@.len() != "Content-Location"@.len());
        reveal_strlit("Content-Type");
        assert("Server"@.len() != "Content-Type"@.len());
        reveal_strlit("Date");
        assert("Server"@.len() != "Date"@.len());
        reveal_strlit("ETag");
        assert("Server"@.len() != "ETag"@.len());
        reveal_strlit("Expires");
        assert("Server"@.len() != "Expires"@.len());
        reveal_strlit("Last-Modified");
        assert("Server"@.len() != "Last-Modified"@.len());
        reveal_strlit("Link");
        assert("Server"@.len() != "Link"@.len());
        reveal_strlit("Location");
        assert("Server"@.len() != "Location"@.len());
        reveal_strlit("Pragma");
        assert("Server"@[0] != "Pragma"@[0]);
    } else if i == 19 {
        reveal_strlit("Set-Cookie");
        reveal_strlit("Access-Control-Allow-Origin");
        assert("Set-Cookie"@.len() != "Access-Control-Allow-Origin"@.len());
        reveal_strlit("Age");
        assert("Set-Cookie"@.len() != "Age"@.len());
        reveal_strlit("Allow");
        assert("Set-Cookie"@.len() != "Allow"@.len());
        reveal_strlit("Cache-Control");
        assert("Set-Cookie"@.len() != "Cache-Control"@.len());
        reveal_strlit("Connection");
        assert("Set-Cookie"@[0] != "Connection"@[0]);
        reveal_strlit("Content-Disposition");
        assert("Set-Cookie"@.len() != "Content-Disposition"@.len());
        reveal_strlit("Content-Encoding");
        assert("Set-Cookie"@.len() != "Content-Encoding"@.len());
        reveal_strlit("Content-Language");
        assert("Set-Cookie"@.len() != "Content-Language"@.len());
        reveal_strlit("Content-Length");
        assert("Set-Cookie"@.len() != "Content-Length"@.len());
        reveal_strlit("Content-Location");
        assert("Set-Cookie"@.len() != "Content-Location"@.len());
        reveal_strlit("Content-Type");
        assert("Set-Cookie"@.len() != "Content-Type"@.len());
        reveal_strlit("Date");
        assert("Set-Cookie"@.len() != "Date"@.len());
        reveal_strlit("ETag");
        assert("Set-Cookie"@.len() != "ETag"@.len());
        reveal_strlit("Expires");
        assert("Set-Cookie"@.len() != "Expires"@.len());
        reveal_strlit("Last-Modified");
        assert("Set-Cookie"@.len() != "Last-Modified"@.len());
        reveal_strlit("Link");
        assert("Set-Cookie"@.len() != "Link"@.len());
        reveal_strlit("Location");
        assert("Set-Cookie"@.len() != "Location"@.len());
        reveal_strlit("Pragma");
        assert("Set-Cookie"@.len() != "Pragma"@.len());
        reveal_strlit("Server");
        assert("Set-Cookie"@.len() != "Server"@.len());
    } else if i == 20 {
        reveal_strlit("Transfer-Encoding");
        reveal_strlit("Access-Control-Allow-Origin");
        assert("Transfer-Encoding"@.len() != "Access-Control-Allow-Origin"@.len());
        reveal_strlit("Age");
        assert("Transfer-Encoding"@.len() != "Age"@.len());
        reveal_strlit("Allow");
        assert("Transfer-Encoding"@.len() != "Allow"@.len());
        reveal_strlit("Cache-Control");
        assert("Transfer-Encoding"@.len() != "Cache-Control"@.len());
        reveal_strlit("Connection");
        assert("Transfer-Encoding"@.len() != "Connection"@.len());
        reveal_strlit("Content-Disposition");
        assert("Transfer-Encoding"@.len() != "Content-Disposition"@.len());
        reveal_strlit("Content-Encoding");
        assert("Transfer-Encoding"@.len() != "Content-Encoding"@.len());
        reveal_strlit("Content-Language");
        assert("Transfer-Encoding"@.len() != "Content-Language"@.len());
        reveal_strlit("Content-Length");
        assert("Transfer-Encoding"@.len() != "Content-Length"@.len());
        reveal_strlit("Content-Location");
        assert("Transfer-Encoding"@.len() != "Content-Location"@.len());
        reveal_strlit("Content-Type");
        assert("Transfer-Encoding"@.len() != "Content-Type"@.len());
        reveal_strlit("Date");
        assert("Transfer-Encoding"@.len() != "Date"@.len());
        reveal_strlit("ETag");
        assert("Transfer-Encoding"@.len() != "ETag"@.len());
        reveal_strlit("Expires");
        assert("Transfer-Encoding"@.len() != "Expires"@.len());
        reveal_strlit("Last-Modified");
        assert("Transfer-Encoding"@.len() != "Last-Modified"@.len());
        reveal_strlit("Link");
        assert("Transfer-Encoding"@.len() != "Link"@.len());
        reveal_strlit("Location");
        assert("Transfer-Encoding"@.len() != "Location"@.len());
        reveal_strlit("Pragma");
        assert("Transfer-Encoding"@.len() != "Pragma"@.len());
        reveal_strlit("Server");
        assert("Transfer-Encoding"@.len() != "Server"@.len());
        reveal_strlit("Set-Cookie");
        assert("Transfer-Encoding"@.len() != "Set-Cookie"@.len());
    } else if i == 21 {
        reveal_strlit("Upgrade");
        reveal_strlit("Access-Control-Allow-Origin");
        assert("Upgrade"@.len() != "Access-Control-Allow-Origin"@.len());
        reveal_strlit("Age");
        assert("Upgrade"@.len() != "Age"@.len());
        reveal_strlit("Allow");
        assert("Upgrade"@.len() != "Allow"@.len());
        reveal_strlit("Cache-Control");
        assert("Upgrade"@.len() != "Cache-Control"@.len());
        reveal_strlit("Connection");
        assert("Upgrade"@.len() != "Connection"@.len());
        reveal_strlit("Content-Disposition");
        assert("Upgrade"@.len() != "Content-Disposition"@.len());
        reveal_strlit("Content-Encoding");
        assert("Upgrade"@.len() != "Content-Encoding"@.len());
        reveal_strlit("Content-Language");
        assert("Upgrade"@.len() != "Content-Language"@.len());
        reveal_strlit("Content-Length");
        assert("Upgrade"@.len() != "Content-Length"@.len());
        reveal_strlit("Content-Location");
        assert("Upgrade"@.len() != "Content-Location"@.len());
        reveal_strlit("Content-Type");
        assert("Upgrade"@.len() != "Content-Type"@.len());
        reveal_strlit("Date");
        assert("Upgrade"@.len() != "Date"@.len());
        reveal_strlit("ETag");
        assert("Upgrade"@.len() != "ETag"@.len());
        reveal_strlit("Expires");
        assert("Upgrade"@[0] != "Expires"@[0]);
        reveal_strlit("Last-Modified");
        assert("Upgrade"@.len() != "Last-Modified"@.len());
        reveal_strlit("Link");
        assert("Upgrade"@.len() != "Link"@.len());
        reveal_strlit("Location");
        assert("Upgrade"@.len() != "Location"@.len());
        reveal_strlit("Pragma");
        assert("Upgrade"@.len() != "Pragma"@.len());
        reveal_strlit("Server");
        assert("Upgrade"@.len() != "Server"@.len());
        reveal_strlit("Set-Cookie");
        assert("Upgrade"@.len() != "Set-Cookie"@.len());
        reveal_strlit("Transfer-Encoding");
        assert("Upgrade"@.len() != "Transfer-Encoding"@.len());
    } else if i == 22 {
        reveal_strlit("Via");
        reveal_strlit("Access-Control-Allow-Origin");
        assert("Via"@.len() != "Access-Control-Allow-Origin"@.len());
        reveal_strlit("Age");
        assert("Via"@[0] != "Age"@[0]);
        reveal_strlit("Allow");
        assert("Via"@.len() != "Allow"@.len());
        reveal_strlit("Cache-Control");
        assert("Via"@.len() != "Cache-Control"@.len());
        reveal_strlit("Connection");
        assert("Via"@.len() != "Connection"@.len());
        reveal_strlit("Content-Disposition");
        assert("Via"@.len() != "Content-Disposition"@.len());
        reveal_strlit("Content-Encoding");
        assert("Via"@.len() != "Content-Encoding"@.len());
        reveal_strlit("Content-Language");
        assert("Via"@.len() != "Content-Language"@.len());
        reveal_strlit("Content-Length");
        assert("Via"@.len() != "Content-Length"@.len());
        reveal_strlit("Content-Location");
        assert("Via"@.len() != "Content-Location"@.len());
        reveal_strlit("Content-Type");
        assert("Via"@.len() != "Content-Type"@.len());
        reveal_strlit("Date");
        assert("Via"@.len() != "Date"@.len());
        reveal_strlit("ETag");
        assert("Via"@.len() != "ETag"@.len());
        reveal_strlit("Expires");
        assert("Via"@.len() != "Expires"@.len());
        reveal_strlit("Last-Modified");
        assert("Via"@.len() != "Last-Modified"@.len());
        reveal_strlit("Link");
        assert("Via"@.len() != "Link"@.len());
        reveal_strlit("Location");
        assert("Via"@.len() != "Location"@.len());
        reveal_strlit("Pragma");
        assert("Via"@.len() != "Pragma"@.len());
        reveal_strlit("Server");
        assert("Via"@.len() != "Server"@.len());
        reveal_strlit("Set-Cookie");
        assert("Via"@.len() != "Set-Cookie"@.len());
        reveal_strlit("Transfer-Encoding");
        assert("Via"@.len() != "Transfer-Encoding"@.len());
        reveal_strlit("Upgrade");
        assert("Via"@.len() != "Upgrade"@.len());
    } else if i == 23 {
        reveal_strlit("Warning");
        reveal_strlit("Access-Control-Allow-Origin");
        assert("Warning"@.len() != "Access-Control-Allow-Origin"@.len());
        reveal_strlit("Age");
        assert("Warning"@.len() != "Age"@.len());
        reveal_strlit("Allow");
        assert("Warning"@.len() != "Allow"@.len());
        reveal_strlit("Cache-Control");
        assert("Warning"@.len() != "Cache-Control"@.len());
        reveal_strlit("Connection");
        assert("Warning"@.len() != "Connection"@.len());
        reveal_strlit("Content-Disposition");
        assert("Warning"@.len() != "Content-Disposition"@.len());
        reveal_strlit("Content-Encoding");
        assert("Warning"@.len() != "Content-Encoding"@.len());
        reveal_strlit("Content-Language");
        assert("Warning"@.len() != "Content-Language"@.len());
        reveal_strlit("Content-Length");
        assert("Warning"@.len() != "Content-Length"@.len());
        reveal_strlit("Content-Location");
        assert("Warning"@.len() != "Content-Location"@.len());
        reveal_strlit("Content-Type");
        assert("Warning"@.len() != "Content-Type"@.len());
        reveal_strlit("Date");
        assert("Warning"@.len() != "Date"@.len());
        reveal_strlit("ETag");
        assert("Warning"@.len() != "ETag"@.len());
        reveal_strlit("Expires");
        assert("Warning"@[0] != "Expires"@[0]);
        reveal_strlit("Last-Modified");
        assert("Warning"@.len() != "Last-Modified"@.len());
        reveal_strlit("Link");
        assert("Warning"@.len() != "Link"@.len());
        reveal_strlit("Location");
        assert("Warning"@.len() != "Location"@.len());
        reveal_strlit("Pragma");
        assert("Warning"@.len() != "Pragma"@.len());
        reveal_strlit("Server");
        assert("Warning"@.len() != "Server"@.len());
        reveal_strlit("Set-Cookie");
        assert("Warning"@.len() != "Set-Cookie"@.len());
        reveal_strlit("Transfer-Encoding");
        assert("Warning"@.len() != "Transfer-Encoding"@.len());
        reveal_strlit("Upgrade");
        assert("Warning"@[0] != "Upgrade"@[0]);
        reveal_strlit("Via");
        assert("Warning"@.len() != "Via"@.len());
    }
}

/// Reading the name of a named response header gives that header back.
pub proof fn lemma_response_header_name_roundtrip(i: nat)
    requires
        i < RESPONSE_HEADER_COUNT,
    ensures
        response_header_from_spec(response_header_name(i)) == (i, response_header_name(i)),
{
    lemma_response_header_index_roundtrip(i);
}

/// The lower-case name of the named request header at the given position.
pub open spec fn request_header_lower_name(i: nat) -> Seq<char> {
    if i == 0 {
        "accept"@
    } else if i == 1 {
        "accept-charset"@
    } else if i == 2 {
        "accept-encoding"@
    } else if i == 3 {
        "accept-language"@
    } else if i == 4 {
        "access-control-request-method"@
    } else if i == 5 {
        "authorization"@
    } else if i == 6 {
        "cache-control"@
    } else if i == 7 {
        "connection"@
    } else if i == 8 {
        "content-encoding"@
    } else if i == 9 {
        "content-length"@
    } else if i == 10 {
        "content-type"@
    } else if i == 11 {
        "cookie"@
    } else if i == 12 {
        "date"@
    } else if i == 13 {
        "expect"@
    } else if i == 14 {
        "forwarded"@
    } else if i == 15 {
        "from"@
    } else if i == 16 {
        "host"@
    } else if i == 17 {
        "origin"@
    } else if i == 18 {
        "pragma"@
    } else if i == 19 {
        "referer"@
    } else if i == 20 {
        "upgrade"@
    } else if i == 21 {
        "user-agent"@
    } else if i == 22 {
        "via"@
    } else if i == 23 {
        "warning"@
    } else {
        Seq::empty()
    }
}

/// The canonical name of a named request header in lower case is its lower-case name.
pub proof fn lemma_request_header_lower_name(i: nat)
    requires
        i < REQUEST_HEADER_COUNT,
    ensures
        ascii_lower(request_header_name(i)) == request_header_lower_name(i),
{
    if i == 0 {
        reveal_strlit("Accept");
        reveal_strlit("accept");
        assert(ascii_lower("Accept"@) =~= "accept"@);
    } else if i == 1 {
        reveal_strlit("Accept-Charset");
        reveal_strlit("accept-charset");
        assert(ascii_lower("Accept-Charset"@) =~= "accept-charset"@);
    } else if i == 2 {
        reveal_strlit("Accept-Encoding");
        reveal_strlit("accept-encoding");
        assert(ascii_lower("Accept-Encoding"@) =~= "accept-encoding"@);
    } else if i == 3 {
        reveal_strlit("Accept-Language");
        reveal_strlit("accept-language");
        assert(ascii_lower("Accept-Language"@) =~= "accept-language"@);
    } else if i == 4 {
        reveal_strlit("Access-Control-Request-Method");
        reveal_strlit("access-control-request-method");
        assert(ascii_lower("Access-Control-Request-Method"@) =~= "access-control-request-method"@);
    } else if i == 5 {
        reveal_strlit("Authorization");
        reveal_strlit("authorization");
        assert(ascii_lower("Authorization"@) =~= "authorization"@);
    } else if i == 6 {
        reveal_strlit("Cache-Control");
        reveal_strlit("cache-control");
        assert(ascii_lower("Cache-Control"@) =~= "cache-control"@);
    } else if i == 7 {
        reveal_strlit("Connection");
        reveal_strlit("connection");
        assert(ascii_lower("Connection"@) =~= "connection"@);
    } else if i == 8 {
        reveal_strlit("Content-Encoding");
        reveal_strlit("content-encoding");
        assert(ascii_lower("Content-Encoding"@) =~= "content-encoding"@);
    } else if i == 9 {
        reveal_strlit("Content-Length");
        reveal_strlit("content-length");
        assert(ascii_lower("Content-Length"@) =~= "content-length"@);
    } else if i == 10 {
        reveal_strlit("Content-Type");
        reveal_strlit("content-type");
        assert(ascii_lower("Content-Type"@) =~= "content-type"@);
    } else if i == 11 {
        reveal_strlit("Cookie");
        reveal_strlit("cookie");
        assert(ascii_lower("Cookie"@) =~= "cookie"@);
    } else if i == 12 {
        reveal_strlit("Date");
        reveal_strlit("date");
        assert(ascii_lower("Date"@) =~= "date"@);
    } else if i == 13 {
        reveal_strlit("Expect");
        reveal_strlit("expect");
        assert(ascii_lower("Expect"@) =~= "expect"@);
    } else if i == 14 {
        reveal_strlit("Forwarded");
        reveal_strlit("forwarded");
        assert(ascii_lower("Forwarded"@) =~= "forwarded"@);
    } else if i == 15 {
        reveal_strlit("From");
        reveal_strlit("from");
        assert(ascii_lower("From"@) =~= "from"@);
    } else if i == 16 {
        reveal_strlit("Host");
        reveal_strlit("host");
        assert(ascii_lower("Host"@) =~= "host"@);
    } else if i == 17 {
        reveal_strlit("Origin");
        reveal_strlit("origin");
        assert(ascii_lower("Origin"@) =~= "origin"@);
    } else if i == 18 {
        reveal_strlit("Pragma");
        reveal_strlit("pragma");
        assert(ascii_lower("Pragma"@) =~= "pragma"@);
    } else if i == 19 {
        reveal_strlit("Referer");
        reveal_strlit("referer");
        assert(ascii_lower("Referer"@) =~= "referer"@);
    } else if i == 20 {
        reveal_strlit("Upgrade");
        reveal_strlit("upgrade");
        assert(ascii_lower("Upgrade"@) =~= "upgrade"@);
    } else if i == 21 {
        reveal_strlit("User-Agent");
        reveal_strlit("user-agent");
        assert(ascii_lower("User-Agent"@) =~= "user-agent"@);
    } else if i == 22 {
        reveal_strlit("Via");
        reveal_strlit("via");
        assert(ascii_lower("Via"@) =~= "via"@);
    } else if i == 23 {
        reveal_strlit("Warning");
        reveal_strlit("warning");
        assert(ascii_lower("Warning"@) =~= "warning"@);
    }
}

/// The lower-case name of a named request header gives its position back.
pub proof fn lemma_request_header_index_roundtrip(i: nat)
    requires
        i < REQUEST_HEADER_COUNT,
    ensures
        request_header_index_of(request_header_lower_name(i)) == Some(i),
{
    if i == 0 {
        reveal_strlit("accept");
    } else if i == 1 {
        reveal_strlit("accept-charset");
        reveal_strlit("accept");
        assert("accept-charset"@.len() != "accept"@.len());
    } else if i == 2 {
        reveal_strlit("accept-encoding");
        reveal_strlit("accept");
        assert("accept-encoding"@.len() != "accept"@.len());
        reveal_strlit("accept-charset");
        assert("accept-encoding"@.len() != "accept-charset"@.len());
    } else if i == 3 {
        reveal_strlit("accept-language");
        reveal_strlit("accept");
        assert("accept-language"@.len() != "accept"@.len());
        reveal_strlit("accept-charset");
        assert("accept-language"@.len() != "accept-charset"@.len());
        reveal_strlit("accept-encoding");
        assert("accept-language"@[7] != "accept-encoding"@[7]);
    } else if i == 4 {
        reveal_strlit("access-control-request-method");
        reveal_strlit("accept");
        assert("access-control-request-method"@.len() != "accept"@.len());
        reveal_strlit("accept-charset");
        assert("access-control-request-method"@.len() != "accept-charset"@.len());
        reveal_strlit("accept-encoding");
        assert("access-control-request-method"@.len() != "accept-encoding"@.len());
        reveal_strlit("accept-language");
        assert("access-control-request-method"@.len() != "accept-language"@.len());
    } else if i == 5 {
        reveal_strlit("authorization");
        reveal_strlit("accept");
        assert("authorization"@.len() != "accept"@.len());
        reveal_strlit("accept-charset");
        assert("authorization"@.len() != "accept-charset"@.len());
        reveal_strlit("accept-encoding");
        assert("authorization"@.len() != "accept-encoding"@.len());
        reveal_strlit("accept-language");
        assert("authorization"@.len() != "accept-language"@.len());
        reveal_strlit("access-control-request-method");
        assert("authorization"@.len() != "access-control-request-method"@.len());
    } else if i == 6 {
        reveal_strlit("cache-control");
        reveal_strlit("accept");
        assert("cache-control"@.len() != "accept"@.len());
        reveal_strlit("accept-charset");
        assert("cache-control"@.len() != "accept-charset"@.len());
        reveal_strlit("accept-encoding");
        assert("cache-control"@.len() != "accept-encoding"@.len());
        reveal_strlit("accept-language");
        assert("cache-control"@.len() != "accept-language"@.len());
        reveal_strlit("access-control-request-method");
        assert("cache-control"@.len() != "access-control-request-method"@.len());
        reveal_strlit("authorization");
        assert("cache-control"@[0] != "authorization"@[0]);
    } else if i == 7 {
        reveal_strlit("connection");
        reveal_strlit("accept");
        assert("connection"@.len() != "accept"@.len());
        reveal_strlit("accept-charset");
        assert("connection"@.len() != "accept-charset"@.len());
        reveal_strlit("accept-encoding");
        assert("connection"@.len() != "accept-encoding"@.len());
        reveal_strlit("accept-language");
        assert("connection"@.len() != "accept-language"@.len());
        reveal_strlit("access-control-request-method");
        assert("connection"@.len() != "access-control-request-method"@.len());
        reveal_strlit("authorization");
        assert("connection"@.len() != "authorization"@.len());
        reveal_strlit("cache-control");
        assert("connection"@.len() != "cache-control"@.len());
    } else if i == 8 {
        reveal_strlit("content-encoding");
        reveal_strlit("accept");
        assert("content-encoding"@.len() != "accept"@.len());
        reveal_strlit("accept-charset");
        assert("content-encoding"@.len() != "accept-charset"@.len());
        reveal_strlit("accept-encoding");
        assert("content-encoding"@.len() != "accept-encoding"@.len());
        reveal_strlit("accept-language");
        assert("content-encoding"@.len() != "accept-language"@.len());
        reveal_strlit("access-control-request-method");
        assert("content-encoding"@.len() != "access-control-request-method"@.len());
        reveal_strlit("authorization");
        assert("content-encoding"@.len() != "authorization"@.len());
        reveal_strlit("cache-control");
        assert("content-encoding"@.len() != "cache-control"@.len());
        reveal_strlit("connection");
        assert("content-encoding"@.len() != "connection"@.len());
    } else if i == 9 {
        reveal_strlit("content-length");
        reveal_strlit("accept");
        assert("content-length"@.len() != "accept"@.len());
        reveal_strlit("accept-charset");
        assert("content-length"@[0] != "accept-charset"@[0]);
        reveal_strlit("accept-encoding");
        assert("content-length"@.len() != "accept-encoding"@.len());
        reveal_strlit("accept-language");
        assert("content-length"@.len() != "accept-language"@.len());
        reveal_strlit("access-control-request-method");
        assert("content-length"@.len() != "access-control-request-method"@.len());
        reveal_strlit("authorization");
        assert("content-length"@.len() != "authorization"@.len());
        reveal_strlit("cache-control");
        assert("content-length"@.len() != "cache-control"@.len());
        reveal_strlit("connection");
        assert("content-length"@.len() != "connection"@.len());
        reveal_strlit("content-encoding");
        assert("content-length"@.len() != "content-encoding"@.len());
    } else if i == 10 {
        reveal_strlit("content-type");
        reveal_strlit("accept");
        assert("content-type"@.len() != "accept"@.len());
        reveal_strlit("accept-charset");
        assert("content-type"@.len() != "accept-charset"@.len());
        reveal_strlit("accept-encoding");
        assert("content-type"@.len() != "accept-encoding"@.len());
        reveal_strlit("accept-language");
        assert("content-type"@.len() != "accept-language"@.len());
        reveal_strlit("access-control-request-method");
        assert("content-type"@.len() != "access-control-request-method"@.len());
        reveal_strlit("authorization");
        assert("content-type"@.len() != "authorization"@.len());
        reveal_strlit("cache-control");
        assert("content-type"@.len() != "cache-control"@.len());
        reveal_strlit("connection");
        assert("content-type"@.len() != "connection"@.len());
        reveal_strlit("content-encoding");
        assert("content-type"@.len() != "content-encoding"@.len());
        reveal_strlit("content-length");
        assert("content-type"@.len() != "content-length"@.len());
    } else if i == 11 {
        reveal_strlit("cookie");
        reveal_strlit("accept");
        assert("cookie"@[0] != "accept"@[0]);
        reveal_strlit("accept-charset");
        assert("cookie"@.len() != "accept-charset"@.len());
        reveal_strlit("accept-encoding");
        assert("cookie"@.len() != "accept-encoding"@.len());
        reveal_strlit("accept-language");
        assert("cookie"@.len() != "accept-language"@.len());
        reveal_strlit("access-control-request-method");
        assert("cookie"@.len() != "access-control-request-method"@.len());
        reveal_strlit("authorization");
        assert("cookie"@.len() != "authorization"@.len());
        reveal_strlit("cache-control");
        assert("cookie"@.len() != "cache-control"@.len());
        reveal_strlit("connection");
        assert("cookie"@.len() != "connection"@.len());
        reveal_strlit("content-encoding");
        assert("cookie"@.len() != "content-encoding"@.len());
        reveal_strlit("content-length");
        assert("cookie"@.len() != "content-length"@.len());
        reveal_strlit("content-type");
        assert("cookie"@.len() != "content-type"@.len());
    } else if i == 12 {
        reveal_strlit("date");
        reveal_strlit("accept");
        assert("date"@.len() != "accept"@.len());
        reveal_strlit("accept-charset");
        assert("date"@.len() != "accept-charset"@.len());
        reveal_strlit("accept-encoding");
        assert("date"@.len() != "accept-encoding"@.len());
        reveal_strlit("accept-language");
        assert("date"@.len() != "accept-language"@.len());
        reveal_strlit("access-control-request-method");
        assert("date"@.len() != "access-control-request-method"@.len());
        reveal_strlit("authorization");
        assert("date"@.len() != "authorization"@.len());
        reveal_strlit("cache-control");
        assert("date"@.len() != "cache-control"@.len());
        reveal_strlit("connection");
        assert("date"@.len() != "connection"@.len());
        reveal_strlit("content-encoding");
        assert("date"@.len() != "content-encoding"@.len());
        reveal_strlit("content-length");
        assert("date"@.len() != "content-length"@.len());
        reveal_strlit("content-type");
        assert("date"@.len() != "content-type"@.len());
        reveal_strlit("cookie");
        assert("date"@.len() != "cookie"@.len());
    } else if i == 13 {
        reveal_strlit("expect");
        reveal_strlit("accept");
        assert("expect"@[0] != "accept"@[0]);
        reveal_strlit("accept-charset");
        assert("expect"@.len() != "accept-charset"@.len());
        reveal_strlit("accept-encoding");
        assert("expect"@.len() != "accept-encoding"@.len());
        reveal_strlit("accept-language");
        assert("expect"@.len() != "accept-language"@.len());
        reveal_strlit("access-control-request-method");
        assert("expect"@.len() != "access-control-request-method"@.len());
        reveal_strlit("authorization");
        assert("expect"@.len() != "authorization"@.len());
        reveal_strlit("cache-control");
        assert("expect"@.len() != "cache-control"@.len());
        reveal_strlit("connection");
        assert("expect"@.len() != "connection"@.len());
        reveal_strlit("content-encoding");
        assert("expect"@.len() != "content-encoding"@.len());
        reveal_strlit("content-length");
        assert("expect"@.len() != "content-length"@.len());
        reveal_strlit("content-type");
        assert("expect"@.len() != "content-type"@.len());
        reveal_strlit("cookie");
        assert("expect"@[0] != "cookie"@[0]);
        reveal_strlit("date");
        assert("expect"@.len() != "date"@.len());
    } else if i == 14 {
        reveal_strlit("forwarded");
        reveal_strlit("accept");
        assert("forwarded"@.len() != "accept"@.len());
        reveal_strlit("accept-charset");
        assert("forwarded"@.len() != "accept-charset"@.len());
        reveal_strlit("accept-encoding");
        assert("forwarded"@.len() != "accept-encoding"@.len());
        reveal_strlit("accept-language");
        assert("forwarded"@.len() != "accept-language"@.len());
        reveal_strlit("access-control-request-method");
        assert("forwarded"@.len() != "access-control-request-method"@.len());
        reveal_strlit("authorization");
        assert("forwarded"@.len() != "authorization"@.len());
        reveal_strlit("cache-control");
        assert("forwarded"@.len() != "cache-control"@.len());
        reveal_strlit("connection");
        assert("forwarded"@.len() != "connection"@.len());
        reveal_strlit("content-encoding");
        assert("forwarded"@.len() != "content-encoding"@.len());
        reveal_strlit("content-length");
        assert("forwarded"@.len() != "content-length"@.len());
        reveal_strlit("content-type");
        assert("forwarded"@.len() != "content-type"@.len());
        reveal_strlit("cookie");
        assert("forwarded"@.len() != "cookie"@.len());
        reveal_strlit("date");
        assert("forwarded"@.len() != "date"@.len());
        reveal_strlit("expect");
        assert("forwarded"@.len() != "expect"@.len());
    } else if i == 15 {
        reveal_strlit("from");
        reveal_strlit("accept");
        assert("from"@.len() != "accept"@.len());
        reveal_strlit("accept-charset");
        assert("from"@.len() != "accept-charset"@.len());
        reveal_strlit("accept-encoding");
        assert("from"@.len() != "accept-encoding"@.len());
        reveal_strlit("accept-language");
        assert("from"@.len() != "accept-language"@.len());
        reveal_strlit("access-control-request-method");
        assert("from"@.len() != "access-control-request-method"@.len());
        reveal_strlit("authorization");
        assert("from"@.len() != "authorization"@.len());
        reveal_strlit("cache-control");
        assert("from"@.len() != "cache-control"@.len());
        reveal_strlit("connection");
        assert("from"@.len() != "connection"@.len());
        reveal_strlit("content-encoding");
        assert("from"@.len() != "content-encoding"@.len());
        reveal_strlit("content-length");
        assert("from"@.len() != "content-length"@.len());
        reveal_strlit("content-type");
        assert("from"@.len() != "content-type"@.len());
        reveal_strlit("cookie");
        assert("from"@.len() != "cookie"@.len());
        reveal_strlit("date");
        assert("from"@[0] != "date"@[0]);
        reveal_strlit("expect");
        assert("from"@.len() != "expect"@.len());
        reveal_strlit("forwarded");
        assert("from"@.len() != "forwarded"@.len());
    } else if i == 16 {
        reveal_strlit("host");
        reveal_strlit("accept");
        assert("host"@.len() != "accept"@.len());
        reveal_strlit("accept-charset");
        assert("host"@.len() != "accept-charset"@.len());
        reveal_strlit("accept-encoding");
        assert("host"@.len() != "accept-encoding"@.len());
        reveal_strlit("accept-language");
        assert("host"@.len() != "accept-language"@.len());
        reveal_strlit("access-control-request-method");
        assert("host"@.len() != "access-control-request-method"@.len());
        reveal_strlit("authorization");
        assert("host"@.len() != "authorization"@.len());
        reveal_strlit("cache-control");
        assert("host"@.len() != "cache-control"@.len());
        reveal_strlit("connection");
        assert("host"@.len() != "connection"@.len());
        reveal_strlit("content-encoding");
        assert("host"@.len() != "content-encoding"@.len());
        reveal_strlit("content-length");
        assert("host"@.len() != "content-length"@.len());
        reveal_strlit("content-type");
        assert("host"@.len() != "content-type"@.len());
        reveal_strlit("cookie");
        assert("host"@.len() != "cookie"@.len());
        reveal_strlit("date");
        assert("host"@[0] != "date"@[0]);
        reveal_strlit("expect");
        assert("host"@.len() != "expect"@.len());
        reveal_strlit("forwarded");
        assert("host"@.len() != "forwarded"@.len());
        reveal_strlit("from");
        assert("host"@[0] != "from"@[0]);
    } else if i == 17 {
        reveal_strlit("origin");
        reveal_strlit("accept");
        assert("origin"@[0] != "accept"@[0]);
        reveal_strlit("accept-charset");
        assert("origin"@.len() != "accept-charset"@.len());
        reveal_strlit("accept-encoding");
        assert("origin"@.len() != "accept-encoding"@.len());
        reveal_strlit("accept-language");
        assert("origin"@.len() != "accept-language"@.len());
        reveal_strlit("access-control-request-method");
        assert("origin"@.len() != "access-control-request-method"@.len());
        reveal_strlit("authorization");
        assert("origin"@.len() != "authorization"@.len());
        reveal_strlit("cache-control");
        assert("origin"@.len() != "cache-control"@.len());
        reveal_strlit("connection");
        assert("origin"@.len() != "connection"@.len());
        reveal_strlit("content-encoding");
        assert("origin"@.len() != "content-encoding"@.len());
        reveal_strlit("content-length");
        assert("origin"@.len() != "content-length"@.len());
        reveal_strlit("content-type");
        assert("origin"@.len() != "content-type"@.len());
        reveal_strlit("cookie");
        assert("origin"@[0] != "cookie"@[0]);
        reveal_strlit("date");
        assert("origin"@.len() != "date"@.len());
        reveal_strlit("expect");
        assert("origin"@[0] != "expect"@[0]);
        reveal_strlit("forwarded");
        assert("origin"@.len() != "forwarded"@.len());
        reveal_strlit("from");
        assert("origin"@.len() != "from"@.len());
        reveal_strlit("host");
        assert("origin"@.len() != "host"@.len());
    } else if i == 18 {
        reveal_strlit("pragma");
        reveal_strlit("accept");
        assert("pragma"@[0] != "accept"@[0]);
        reveal_strlit("accept-charset");
        assert("pragma"@.len() != "accept-charset"@.len());
        reveal_strlit("accept-encoding");
        assert("pragma"@.len() != "accept-encoding"@.len());
        reveal_strlit("accept-language");
        assert("pragma"@.len() != "accept-language"@.len());
        reveal_strlit("access-control-request-method");
        assert("pragma"@.len() != "access-control-request-method"@.len());
        reveal_strlit("authorization");
        assert("pragma"@.len() != "authorization"@.len());
        reveal_strlit("cache-control");
        assert("pragma"@.len() != "cache-control"@.len());
        reveal_strlit("connection");
        assert("pragma"@.len() != "connection"@.len());
        reveal_strlit("content-encoding");
        assert("pragma"@.len() != "content-encoding"@.len());
        reveal_strlit("content-length");
        assert("pragma"@.len() != "content-length"@.len());
        reveal_strlit("content-type");
        assert("pragma"@.len() != "content-type"@.len());
        reveal_strlit("cookie");
        assert("pragma"@[0] != "cookie"@[0]);
        reveal_strlit("date");
        assert("pragma"@.len() != "date"@.len());
        reveal_strlit("expect");
        assert("pragma"@[0] != "expect"@[0]);
        reveal_strlit("forwarded");
        assert("pragma"@.len() != "forwarded"@.len());
        reveal_strlit("from");
        assert("pragma"@.len() != "from"@.len());
        reveal_strlit("host");
        assert("pragma"@.len() != "host"@.len());
        reveal_strlit("origin");
        assert("pragma"@[0] != "origin"@[0]);
    } else if i == 19 {
        reveal_strlit("referer");
        reveal_strlit("accept");
        assert("referer"@.len() != "accept"@.len());
        reveal_strlit("accept-charset");
        assert("referer"@.len() != "accept-charset"@.len());
        reveal_strlit("accept-encoding");
        assert("referer"@.len() != "accept-encoding"@.len());
        reveal_strlit("accept-language");
        assert("referer"@.len() != "accept-language"@.len());
        reveal_strlit("access-control-request-method");
        assert("referer"@.len() != "access-control-request-method"@.len());
        reveal_strlit("authorization");
        assert("referer"@.len() != "authorization"@.len());
        reveal_strlit("cache-control");
        assert("referer"@.len() != "cache-control"@.len());
        reveal_strlit("connection");
        assert("referer"@.len() != "connection"@.len());
        reveal_strlit("content-encoding");
        assert("referer"@.len() != "content-encoding"@.len());
        reveal_strlit("content-length");
        assert("referer"@.len() != "content-length"@.len());
        reveal_strlit("content-type");
        assert("referer"@.len() != "content-type"@.len());
        reveal_strlit("cookie");
        assert("referer"@.len() != "cookie"@.len());
        reveal_strlit("date");
        assert("referer"@.len() != "date"@.len());
        reveal_strlit("expect");
        assert("referer"@.len() != "expect"@.len());
        reveal_strlit("forwarded");
        assert("referer"@.len() != "forwarded"@.len());
        reveal_strlit("from");
        assert("referer"@.len() != "from"@.len());
        reveal_strlit("host");
        assert("referer"@.len() != "host"@.len());
        reveal_strlit("origin");
        assert("referer"@.len() != "origin"@.len());
        reveal_strlit("pragma");
        assert("referer"@.len() != "pragma"@.len());
    } else if i == 20 {
        reveal_strlit("upgrade");
        reveal_strlit("accept");
        assert("upgrade"@.len() != "accept"@.len());
        reveal_strlit("accept-charset");
        assert("upgrade"@.len() != "accept-charset"@.len());
        reveal_strlit("accept-encoding");
        assert("upgrade"@.len() != "accept-encoding"@.len());
        reveal_strlit("accept-language");
        assert("upgrade"@.len() != "accept-language"@.len());
        reveal_strlit("access-control-request-method");
        assert("upgrade"@.len() != "access-control-request-method"@.len());
        reveal_strlit("authorization");
        assert("upgrade"@.len() != "authorization"@.len());
        reveal_strlit("cache-control");
        assert("upgrade"@.len() != "cache-control"@.len());
        reveal_strlit("connection");
        assert("upgrade"@.len() != "connection"@.len());
        reveal_strlit("content-encoding");
        assert("upgrade"@.len() != "content-encoding"@.len());
        reveal_strlit("content-length");
        assert("upgrade"@.len() != "content-length"@.len());
        reveal_strlit("content-type");
        assert("upgrade"@.len() != "content-type"@.len());
        reveal_strlit("cookie");
        assert("upgrade"@.len() != "cookie"@.len());
        reveal_strlit("date");
        assert("upgrade"@.len() != "date"@.len());
        reveal_strlit("expect");
        assert("upgrade"@.len() != "expect"@.len());
        reveal_strlit("forwarded");
        assert("upgrade"@.len() != "forwarded"@.len());
        reveal_strlit("from");
        assert("upgrade"@.len() != "from"@.len());
        reveal_strlit("host");
        assert("upgrade"@.len() != "host"@.len());
        reveal_strlit("origin");
        assert("upgrade"@.len() != "origin"@.len());
        reveal_strlit("pragma");
        assert("upgrade"@.len() != "pragma"@.len());
        reveal_strlit("referer");
        assert("upgrade"@[0] != "referer"@[0]);
    } else if i == 21 {
        reveal_strlit("user-agent");
        reveal_strlit("accept");
        assert("user-agent"@.len() != "accept"@.len());
        reveal_strlit("accept-charset");
        assert("user-agent"@.len() != "accept-charset"@.len());
        reveal_strlit("accept-encoding");
        assert("user-agent"@.len() != "accept-encoding"@.len());
        reveal_strlit("accept-language");
        assert("user-agent"@.len() != "accept-language"@.len());
        reveal_strlit("access-control-request-method");
        assert("user-agent"@.len() != "access-control-request-method"@.len());
        reveal_strlit("authorization");
        assert("user-agent"@.len() != "authorization"@.len());
        reveal_strlit("cache-control");
        assert("user-agent"@.len() != "cache-control"@.len());
        reveal_strlit("connection");
        assert("user-agent"@[0] != "connection"@[0]);
        reveal_strlit("content-encoding");
        assert("user-agent"@.len() != "content-encoding"@.len());
        reveal_strlit("content-length");
        assert("user-agent"@.len() != "content-length"@.len());
        reveal_strlit("content-type");
        assert("user-agent"@.len() != "content-type"@.len());
        reveal_strlit("cookie");
        assert("user-agent"@.len() != "cookie"@.len());
        reveal_strlit("date");
        assert("user-agent"@.len() != "date"@.len());
        reveal_strlit("expect");
        assert("user-agent"@.len() != "expect"@.len());
        reveal_strlit("forwarded");
        assert("user-agent"@.len() != "forwarded"@.len());
        reveal_strlit("from");
        assert("user-agent"@.len() != "from"@.len());
        reveal_strlit("host");
        assert("user-agent"@.len() != "host"@.len());
        reveal_strlit("origin");
        assert("user-agent"@.len() != "origin"@.len());
        reveal_strlit("pragma");
        assert("user-agent"@.len() != "pragma"@.len());
        reveal_strlit("referer");
        assert("user-agent"@.len() != "referer"@.len());
        reveal_strlit("upgrade");
        assert("user-agent"@.len() != "upgrade"@.len());
    } else if i == 22 {
        reveal_strlit("via");
        reveal_strlit("accept");
        assert("via"@.len() != "accept"@.len());
        reveal_strlit("accept-charset");
        assert("via"@.len() != "accept-charset"@.len());
        reveal_strlit("accept-encoding");
        assert("via"@.len() != "accept-encoding"@.len());
        reveal_strlit("accept-language");
        assert("via"@.len() != "accept-language"@.len());
        reveal_strlit("access-control-request-method");
        assert("via"@.len() != "access-control-request-method"@.len());
        reveal_strlit("authorization");
        assert("via"@.len() != "authorization"@.len());
        reveal_strlit("cache-control");
        assert("via"@.len() != "cache-control"@.len());
        reveal_strlit("connection");
        assert("via"@.len() != "connection"@.len());
        reveal_strlit("content-encoding");
        assert("via"@.len() != "content-encoding"@.len());
        reveal_strlit("content-length");
        assert("via"@.len() != "content-length"@.len());
        reveal_strlit("content-type");
        assert("via"@.len() != "content-type"@.len());
        reveal_strlit("cookie");
        assert("via"@.len() != "cookie"@.len());
        reveal_strlit("date");
        assert("via"@.len() != "date"@.len());
        reveal_strlit("expect");
        assert("via"@.len() != "expect"@.len());
        reveal_strlit("forwarded");
        assert("via"@.len() != "forwarded"@.len());
        reveal_strlit("from");
        assert("via"@.len() != "from"@.len());
        reveal_strlit("host");
        assert("via"@.len() != "host"@.len());
        reveal_strlit("origin");
        assert("via"@.len() != "origin"@.len());
        reveal_strlit("pragma");
        assert("via"@.len() != "pragma"@.len());
        reveal_strlit("referer");
        assert("via"@.len() != "referer"@.len());
        reveal_strlit("upgrade");
        assert("via"@.len() != "upgrade"@.len());
        reveal_strlit("user-agent");
        assert("via"@.len() != "user-agent"@.len());
    } else if i == 23 {
        reveal_strlit("warning");
        reveal_strlit("accept");
        assert("warning"@.len() != "accept"@.len());
        reveal_strlit("accept-charset");
        assert("warning"@.len() != "accept-charset"@.len());
        reveal_strlit("accept-encoding");
        assert("warning"@.len() != "accept-encoding"@.len());
        reveal_strlit("accept-language");
        assert("warning"@.len() != "accept-language"@.len());
        reveal_strlit("access-control-request-method");
        assert("warning"@.len() != "access-control-request-method"@.len());
        reveal_strlit("authorization");
        assert("warning"@.len() != "authorization"@.len());
        reveal_strlit("cache-control");
        assert("warning"@.len() != "cache-control"@.len());
        reveal_strlit("connection");
        assert("warning"@.len() != "connection"@.len());
        reveal_strlit("content-encoding");
        assert("warning"@.len() != "content-encoding"@.len());
        reveal_strlit("content-length");
        assert("warning"@.len() != "content-length"@.len());
        reveal_strlit("content-type");
        assert("warning"@.len() != "content-type"@.len());
        reveal_strlit("cookie");
        assert("warning"@.len() != "cookie"@.len());
        reveal_strlit("date");
        assert("warning"@.len() != "date"@.len());
        reveal_strlit("expect");
        assert("warning"@.len() != "expect"@.len());
        reveal_strlit("forwarded");
        assert("warning"@.len() != "forwarded"@.len());
        reveal_strlit("from");
        assert("warning"@.len() != "from"@.len());
        reveal_strlit("host");
        assert("warning"@.len() != "host"@.len());
        reveal_strlit("origin");
        assert("warning"@.len() != "origin"@.len());
        reveal_strlit("pragma");
        assert("warning"@.len() != "pragma"@.len());
        reveal_strlit("referer");
        assert("warning"@[0] != "referer"@[0]);
        reveal_strlit("upgrade");
        assert("warning"@[0] != "upgrade"@[0]);
        reveal_strlit("user-agent");
        assert("warning"@.len() != "user-agent"@.len());
        reveal_strlit("via");
        assert("warning"@.len() != "via"@.len());
    }
}

/// Reading the name of a named request header gives that header back.
pub proof fn lemma_request_header_name_roundtrip(i: nat)
    requires
        i < REQUEST_HEADER_COUNT,
    ensures
        request_header_from_spec(request_header_name(i)) == (i, request_header_name(i)),
{
    lemma_request_header_lower_name(i);
    lemma_request_header_index_roundtrip(i);
}

} // verus!
verus! {

/// Lower-casing ASCII letters a second time changes nothing.
pub proof fn lemma_ascii_lower_idempotent(s: Seq<char>)
    ensures
        ascii_lower(ascii_lower(s)) == ascii_lower(s),
{
    assert forall|i: int| 0 <= i < s.len() implies #[trigger] ascii_lower(ascii_lower(s))[i]
        == ascii_lower(s)[i] by {
        let c = s[i];
        if 'A' <= c <= 'Z' {
            assert(('a' as u32) == 97u32);
            assert(('z' as u32) == 122u32);
            assert(('A' as u32) == 65u32);
            assert(('Z' as u32) == 90u32);
        }
    }
    assert(ascii_lower(ascii_lower(s)) =~= ascii_lower(s));
}

/// Reading a request header's name ignores ASCII case: a name reads as its lower-case
/// form does; a name that is no named header's, in any case, reads as a custom header
/// holding it in lower case; and the name of a named header reads back as that header.
pub proof fn lemma_request_header_names(name: Seq<char>, header: RequestHeader)
    ensures
        request_header_from_spec(ascii_lower(name)) == request_header_from_spec(name),
        request_header_index_of(ascii_lower(name)) is None ==> request_header_from_spec(name) == (
            REQUEST_HEADER_COUNT as nat,
            ascii_lower(name),
        ),
        !(header is Custom) ==> request_header_from_spec(header@.1) == header@,
{
    lemma_ascii_lower_idempotent(name);
    if !(header is Custom) {
        assert(header@.0 < REQUEST_HEADER_COUNT && header@.1 == request_header_name(header@.0));
        lemma_request_header_name_roundtrip(header@.0);
    }
}

} // verus!
