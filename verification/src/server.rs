//! What a connection decides around each request: the default error page, whether the
//! connection stays open, how a handler's response is completed before it is sent, and
//! the answer of the plain-HTTP listener that sends clients to HTTPS.

use vstd::prelude::*;
use vstd::utf8::encode_utf8;

use crate::http::cors::{cors_headers, Cors};
use crate::http::header_map::{insert_entry, lookup, HeaderKey};
use crate::http::headers::{RequestHeader, ResponseHeader};
use crate::http::request::{Request, RequestError};
use crate::http::response::Response;
use crate::http::status::StatusCode;
use crate::text::{
    ascii_lower, decimal, decimal_string, owned_string, push_decimal, str_eq, string_push,
    string_push_str, to_ascii_lowercase,
};

verus! {

/// The text of the default error page for a status: its code and reason phrase in a
/// heading.
pub open spec fn error_page(status: StatusCode) -> Seq<char> {
    "<html><body><h1>"@ + decimal(status.spec_code() as nat) + seq![' '] + status.spec_reason()
        + "</h1></body></html>"@
}

/// The default error handler: a response with the given status whose body is the error
/// page, version `HTTP/1.1` and no headers.
pub fn error_handler(status_code: StatusCode) -> (r: Response)
    ensures
        r.version@ == "HTTP/1.1"@,
        r.status_code == status_code,
        r.headers@.len() == 0,
        r.cookies@.len() == 0,
        r.body@ == encode_utf8(error_page(status_code)),
{
    let mut body = String::new();
    string_push_str(&mut body, "<html><body><h1>");
    push_decimal(&mut body, status_code.code() as u64);
    string_push(&mut body, ' ');
    string_push_str(&mut body, status_code.reason_phrase());
    string_push_str(&mut body, "</h1></body></html>");
    proof {
        reveal_strlit("<html><body><h1>");
        reveal_strlit("</h1></body></html>");
    }
    assert(body@ =~= error_page(status_code));
    let r = Response::new(status_code, body.as_str().as_bytes());
    proof {
        vstd::utf8::encode_utf8_decode_utf8(body@);
    }
    r
}

/// The value of a request header in a request's header entries.
pub open spec fn request_header_value(
    headers: Seq<((nat, Seq<char>), Seq<char>)>,
    header: RequestHeader,
) -> Option<Seq<char>> {
    lookup::<RequestHeader>(headers, RequestHeader::key_of(header@))
}

/// The value of a response header in a response's header entries.
pub open spec fn response_header_value(
    headers: Seq<((nat, Seq<char>), Seq<char>)>,
    header: ResponseHeader,
) -> Option<Seq<char>> {
    lookup::<ResponseHeader>(headers, ResponseHeader::key_of(header@))
}

/// A request asks to keep the connection open when its `Connection` header is
/// `keep-alive` in any case.
pub open spec fn asks_keep_alive(headers: Seq<((nat, Seq<char>), Seq<char>)>) -> bool {
    match request_header_value(headers, RequestHeader::Connection) {
        Some(v) => ascii_lower(v) == "keep-alive"@,
        None => false,
    }
}

/// Whether the connection stays open after the response to this request.
pub fn keep_alive(request: &Request) -> (r: bool)
    ensures
        r == asks_keep_alive(request.headers@),
{
    match request.headers.get(&RequestHeader::Connection) {
        Some(v) => {
            let lower = to_ascii_lowercase(v.as_str());
            str_eq(lower.as_str(), "keep-alive")
        },
        None => false,
    }
}

/// A request asks for a WebSocket connection when its `Upgrade` header is exactly
/// `websocket`.
pub open spec fn asks_websocket(headers: Seq<((nat, Seq<char>), Seq<char>)>) -> bool {
    request_header_value(headers, RequestHeader::Upgrade) == Some("websocket"@)
}

/// Whether the request is handed to a WebSocket handler.
pub fn is_websocket_request(request: &Request) -> (r: bool)
    ensures
        r == asks_websocket(request.headers@),
{
    match request.headers.get(&RequestHeader::Upgrade) {
        Some(v) => str_eq(v.as_str(), "websocket"),
        None => false,
    }
}

/// What a connection does when a request could not be read.
#[derive(Clone, Copy, Debug, PartialEq, Eq, Structural)]
pub enum RequestFailure {
    /// Answer with the error handler's response for this status.
    Respond(StatusCode),
    /// Close the connection without a word.
    Close,
    /// Close the connection and report a failed request.
    CloseReporting,
}

/// The answer to a request that could not be read: `400 Bad Request` for invalid data,
/// `408 Request Timeout` for a timeout; a disconnected client is left quietly and a
/// broken stream is reported.
pub open spec fn failure_for(e: RequestError) -> RequestFailure {
    match e {
        RequestError::Request => RequestFailure::Respond(StatusCode::BadRequest),
        RequestError::Timeout => RequestFailure::Respond(StatusCode::RequestTimeout),
        RequestError::Disconnected => RequestFailure::Close,
        RequestError::Stream => RequestFailure::CloseReporting,
    }
}

/// Decides what a connection does when a request could not be read.
pub fn on_request_error(e: RequestError) -> (r: RequestFailure)
    ensures
        r == failure_for(e),
{
    match e {
        RequestError::Request => RequestFailure::Respond(StatusCode::BadRequest),
        RequestError::Timeout => RequestFailure::Respond(StatusCode::RequestTimeout),
        RequestError::Disconnected => RequestFailure::Close,
        RequestError::Stream => RequestFailure::CloseReporting,
    }
}

/// The value of the `Connection` header of a response: `Keep-Alive` or `Close`.
pub open spec fn connection_value(keep_alive: bool) -> Seq<char> {
    if keep_alive {
        "Keep-Alive"@
    } else {
        "Close"@
    }
}

/// The headers of the answer to an `OPTIONS` request that a route serves: `Date`,
/// `Server: Humphrey` and `Connection`, then the route's CORS headers.
pub open spec fn options_headers(
    cors: (
        crate::http::cors::Allowed<Seq<char>>,
        crate::http::cors::Allowed<crate::http::method::Method>,
        crate::http::cors::Allowed<Seq<char>>,
    ),
    keep_alive: bool,
    date: Seq<char>,
) -> Seq<((nat, Seq<char>), Seq<char>)> {
    let h1 = insert_entry::<ResponseHeader>(Seq::empty(), ResponseHeader::Date@, date);
    let h2 = insert_entry::<ResponseHeader>(h1, ResponseHeader::Server@, "Humphrey"@);
    let h3 = insert_entry::<ResponseHeader>(h2, ResponseHeader::Connection@, connection_value(keep_alive));
    cors_headers(cors, h3)
}

/// The answer to an `OPTIONS` request: `204 No Content` with the route's CORS headers
/// when a route serves the request (given by its CORS configuration), otherwise the
/// error handler's `404 Not Found`. `date` is the current date as the `Date` header
/// writes it.
pub fn options_response(cors: Option<&Cors>, keep_alive: bool, date: &str) -> (r: Response)
    ensures
        r.version@ == "HTTP/1.1"@,
        r.cookies@.len() == 0,
        match cors {
            Some(c) => {
                &&& r.status_code == StatusCode::NoContent
                &&& r.headers@ == options_headers(c@, keep_alive, date@)
                &&& r.body@.len() == 0
            },
            None => {
                &&& r.status_code == StatusCode::NotFound
                &&& r.headers@.len() == 0
                &&& r.body@ == encode_utf8(error_page(StatusCode::NotFound))
            },
        },
{
    match cors {
        Some(c) => {
            let connection = if keep_alive {
                "Keep-Alive"
            } else {
                "Close"
            };
            proof {
                reveal_strlit("Keep-Alive");
                reveal_strlit("Close");
            }
            let mut response = Response::empty(StatusCode::NoContent).with_header(
                ResponseHeader::Date,
                date,
            ).with_header(ResponseHeader::Server, "Humphrey").with_header(
                ResponseHeader::Connection,
                connection,
            );
            assert(response.headers@ == insert_entry::<ResponseHeader>(
                insert_entry::<ResponseHeader>(
                    insert_entry::<ResponseHeader>(Seq::empty(), ResponseHeader::Date@, date@),
                    ResponseHeader::Server@,
                    "Humphrey"@,
                ),
                ResponseHeader::Connection@,
                connection_value(keep_alive),
            )) by {
                assert(Seq::<((nat, Seq<char>), Seq<char>)>::empty() =~= Seq::empty());
            }
            c.set_headers(&mut response.headers);
            response
        },
        None => error_handler(StatusCode::NotFound),
    }
}

/// The entries with a header set to a value only when they do not hold it yet.
pub open spec fn insert_if_absent(
    headers: Seq<((nat, Seq<char>), Seq<char>)>,
    header: ResponseHeader,
    value: Seq<char>,
) -> Seq<((nat, Seq<char>), Seq<char>)> {
    if response_header_value(headers, header) is Some {
        headers
    } else {
        insert_entry::<ResponseHeader>(headers, header@, value)
    }
}

/// The headers of a handler's response as it is sent: each of `Connection` (the
/// request's own value, or `Close`), `Server` (`Humphrey`), `Date` and `Content-Length`
/// (the body's length) is added when the response does not set it.
pub open spec fn completed_headers(
    headers: Seq<((nat, Seq<char>), Seq<char>)>,
    request_headers: Seq<((nat, Seq<char>), Seq<char>)>,
    date: Seq<char>,
    body_len: nat,
) -> Seq<((nat, Seq<char>), Seq<char>)> {
    let connection = match request_header_value(request_headers, RequestHeader::Connection) {
        Some(v) => v,
        None => "Close"@,
    };
    let h1 = insert_if_absent(headers, ResponseHeader::Connection, connection);
    let h2 = insert_if_absent(h1, ResponseHeader::Server, "Humphrey"@);
    let h3 = insert_if_absent(h2, ResponseHeader::Date, date);
    insert_if_absent(h3, ResponseHeader::ContentLength, decimal(body_len))
}

/// Sets a response header unless the response already has it.
fn add_if_absent(response: &mut Response, header: ResponseHeader, value: String)
    ensures
        final(response).version == old(response).version,
        final(response).status_code == old(response).status_code,
        final(response).body == old(response).body,
        final(response).cookies == old(response).cookies,
        final(response).headers@ == insert_if_absent(old(response).headers@, header, value@),
{
    if !response.headers.contains(&header) {
        response.headers.insert(header, value);
    }
}

/// Completes a response before it is sent to the client of a request: the CORS headers
/// of the route that served it are added (`None` when no route did), then the missing
/// `Connection`, `Server`, `Date` and `Content-Length` headers (see `completed_headers`),
/// and the response takes the request's HTTP version. `date` is the current date as the
/// `Date` header writes it.
pub fn finish_response(response: Response, cors: Option<&Cors>, request: &Request, date: &str) -> (r: Response)
    ensures
        r.version@ == request.version@,
        r.status_code == response.status_code,
        r.body@ == response.body@,
        r.cookies == response.cookies,
        r.headers@ == completed_headers(
            match cors {
                Some(c) => cors_headers(c@, response.headers@),
                None => response.headers@,
            },
            request.headers@,
            date@,
            response.body@.len(),
        ),
{
    let mut response = response;
    match cors {
        Some(c) => c.set_headers(&mut response.headers),
        None => {},
    }
    let connection = match request.headers.get(&RequestHeader::Connection) {
        Some(v) => v.clone(),
        None => owned_string("Close"),
    };
    proof {
        reveal_strlit("Close");
    }
    add_if_absent(&mut response, ResponseHeader::Connection, connection);
    add_if_absent(&mut response, ResponseHeader::Server, owned_string("Humphrey"));
    add_if_absent(&mut response, ResponseHeader::Date, owned_string(date));
    let length = decimal_string(response.body.len() as u64);
    add_if_absent(&mut response, ResponseHeader::ContentLength, length);
    response.version = request.version.clone();
    response
}

/// The text of the page that the plain-HTTP listener sends when a request names no host.
pub open spec fn https_notice() -> Seq<char> {
    "<h1>Please access over HTTPS</h1>"@
}

/// The answer of the plain-HTTP listener: `301 Moved Permanently` to the same URI over
/// HTTPS on the request's host, or a short page asking for HTTPS when the request has no
/// `Host` header; the connection is closed either way.
pub fn https_redirect(request: &Request) -> (r: Response)
    ensures
        r.version@ == "HTTP/1.1"@,
        r.cookies@.len() == 0,
        match request_header_value(request.headers@, RequestHeader::Host) {
            Some(host) => {
                &&& r.status_code == StatusCode::MovedPermanently
                &&& r.headers@ == insert_entry::<ResponseHeader>(
                    insert_entry::<ResponseHeader>(
                        Seq::empty(),
                        ResponseHeader::Location@,
                        "https://"@ + host + request.uri@,
                    ),
                    ResponseHeader::Connection@,
                    "Close"@,
                )
                &&& r.body@.len() == 0
            },
            None => {
                &&& r.status_code == StatusCode::OK
                &&& r.headers@ == insert_entry::<ResponseHeader>(
                    insert_entry::<ResponseHeader>(
                        Seq::empty(),
                        ResponseHeader::ContentLength@,
                        "33"@,
                    ),
                    ResponseHeader::Connection@,
                    "Close"@,
                )
                &&& r.body@ == encode_utf8(https_notice())
            },
        },
{
    match request.headers.get(&RequestHeader::Host) {
        Some(host) => {
            let mut location = String::new();
            string_push_str(&mut location, "https://");
            string_push_str(&mut location, host.as_str());
            string_push_str(&mut location, request.uri.as_str());
            let r = Response::empty(StatusCode::MovedPermanently).with_header(
                ResponseHeader::Location,
                location.as_str(),
            ).with_header(ResponseHeader::Connection, "Close");
            assert(r.headers@ =~= insert_entry::<ResponseHeader>(
                insert_entry::<ResponseHeader>(
                    Seq::empty(),
                    ResponseHeader::Location@,
                    "https://"@ + host@ + request.uri@,
                ),
                ResponseHeader::Connection@,
                "Close"@,
            ));
            r
        },
        None => {
            let notice = "<h1>Please access over HTTPS</h1>";
            let r = Response::empty(StatusCode::OK).with_bytes(notice.as_bytes()).with_header(
                ResponseHeader::ContentLength,
                "33",
            ).with_header(ResponseHeader::Connection, "Close");
            proof {
                vstd::utf8::encode_utf8_decode_utf8(notice@);
            }
            assert(r.body@ =~= encode_utf8(https_notice()));
            assert(r.headers@ =~= insert_entry::<ResponseHeader>(
                insert_entry::<ResponseHeader>(
                    Seq::empty(),
                    ResponseHeader::ContentLength@,
                    "33"@,
                ),
                ResponseHeader::Connection@,
                "Close"@,
            ));
            r
        },
    }
}

/// The answer when a request names a directory without its trailing `/`: `301 Moved
/// Permanently` to the same URI with a `/` added.
pub fn directory_redirect(uri: &str) -> (r: Response)
    ensures
        r.version@ == "HTTP/1.1"@,
        r.status_code == StatusCode::MovedPermanently,
        r.headers@ == insert_entry::<ResponseHeader>(
            Seq::empty(),
            ResponseHeader::Location@,
            uri@ + seq!['/'],
        ),
        r.cookies@.len() == 0,
        r.body@.len() == 0,
{
    let mut location = String::new();
    string_push_str(&mut location, uri);
    string_push(&mut location, '/');
    assert(location@ =~= uri@ + seq!['/']);
    let r = Response::empty(StatusCode::MovedPermanently).with_header(
        ResponseHeader::Location,
        location.as_str(),
    );
    assert(r.headers@ =~= insert_entry::<ResponseHeader>(
        Seq::empty(),
        ResponseHeader::Location@,
        uri@ + seq!['/'],
    ));
    r
}

} // verus!
