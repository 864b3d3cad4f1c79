//! Proxying: what a proxied response carries, and the answer when the target cannot be
//! reached.

use vstd::prelude::*;
use vstd::utf8::encode_utf8;

use crate::http::header_map::insert_entry;
use crate::http::headers::ResponseHeader;
use crate::http::request::Request;
use crate::http::response::Response;
use crate::http::status::StatusCode;
use crate::server::{error_handler, error_page};
use crate::text::owned_string;

verus! {

/// A response from the proxy target, passed on with the request's origin address in an
/// `X-Forwarded-For` header.
pub fn forwarded_response(response: Response, request: &Request) -> (r: Response)
    ensures
        r.version == response.version,
        r.status_code == response.status_code,
        r.headers@ == insert_entry::<ResponseHeader>(
            response.headers@,
            (24nat, "X-Forwarded-For"@),
            request.address.origin_addr@,
        ),
        r.cookies == response.cookies,
        r.body == response.body,
{
    let header = ResponseHeader::Custom { name: owned_string("X-Forwarded-For") };
    response.with_header(header, request.address.origin_addr.as_str())
}

/// The answer when the proxy target cannot be reached or answers with something that
/// cannot be read: `502 Bad Gateway` with its error page.
pub fn bad_gateway() -> (r: Response)
    ensures
        r.version@ == "HTTP/1.1"@,
        r.status_code == StatusCode::BadGateway,
        r.headers@.len() == 0,
        r.cookies@.len() == 0,
        r.body@ == encode_utf8(error_page(StatusCode::BadGateway)),
{
    error_handler(StatusCode::BadGateway)
}

} // verus!
