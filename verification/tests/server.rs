use humphrey::http::cors::Cors;
use humphrey::http::header_map::RequestHeaderMap;
use humphrey::http::headers::{RequestHeader, ResponseHeader};
use humphrey::http::method::Method;
use humphrey::http::proxy::{bad_gateway, forwarded_response};
use humphrey::http::request::{Address, Request, RequestError};
use humphrey::http::response::Response;
use humphrey::http::status::StatusCode;
use humphrey::server::{
    directory_redirect, error_handler, finish_response, https_redirect, is_websocket_request,
    keep_alive, on_request_error, options_response, RequestFailure,
};

fn request_with(headers: &[(RequestHeader, &str)]) -> Request {
    let mut map = RequestHeaderMap::new();
    for (h, v) in headers {
        map.insert(h.clone(), v.to_string());
    }
    Request {
        method: Method::Get,
        uri: "/page".to_string(),
        query: String::new(),
        version: "HTTP/1.0".to_string(),
        headers: map,
        content: None,
        address: Address::new("1.2.3.4".to_string(), 80),
    }
}

#[test]
fn error_page_has_code_and_reason() {
    let r = error_handler(StatusCode::NotFound);
    assert_eq!(r.status_code, StatusCode::NotFound);
    assert_eq!(r.text().unwrap(), "<html><body><h1>404 Not Found</h1></body></html>");
    assert!(r.headers.is_empty());
    assert_eq!(r.version, "HTTP/1.1");
}

#[test]
fn keep_alive_is_case_insensitive() {
    assert!(keep_alive(&request_with(&[(RequestHeader::Connection, "Keep-Alive")])));
    assert!(keep_alive(&request_with(&[(RequestHeader::Connection, "keep-alive")])));
    assert!(!keep_alive(&request_with(&[(RequestHeader::Connection, "close")])));
    assert!(!keep_alive(&request_with(&[])));
}

#[test]
fn websocket_requests() {
    assert!(is_websocket_request(&request_with(&[(RequestHeader::Upgrade, "websocket")])));
    assert!(!is_websocket_request(&request_with(&[(RequestHeader::Upgrade, "WebSocket")])));
    assert!(!is_websocket_request(&request_with(&[])));
}

#[test]
fn request_errors_are_answered() {
    assert_eq!(on_request_error(RequestError::Request), RequestFailure::Respond(StatusCode::BadRequest));
    assert_eq!(on_request_error(RequestError::Timeout), RequestFailure::Respond(StatusCode::RequestTimeout));
    assert_eq!(on_request_error(RequestError::Disconnected), RequestFailure::Close);
    assert_eq!(on_request_error(RequestError::Stream), RequestFailure::CloseReporting);
}

#[test]
fn options_answers() {
    let cors = Cors::wildcard();
    let r = options_response(Some(&cors), true, "Thu, 01 Jan 1970 00:00:00 GMT");
    assert_eq!(r.status_code, StatusCode::NoContent);
    assert_eq!(r.headers.get(&ResponseHeader::Connection).unwrap(), "Keep-Alive");
    assert_eq!(r.headers.get(&ResponseHeader::Server).unwrap(), "Humphrey");
    assert_eq!(r.headers.get(&ResponseHeader::Date).unwrap(), "Thu, 01 Jan 1970 00:00:00 GMT");
    assert_eq!(r.headers.get(&ResponseHeader::AccessControlAllowOrigin).unwrap(), "*");
    let r = options_response(None, false, "x");
    assert_eq!(r.status_code, StatusCode::NotFound);
    let r = options_response(Some(&Cors::new()), false, "x");
    assert_eq!(r.headers.get(&ResponseHeader::Connection).unwrap(), "Close");
}

#[test]
fn responses_are_completed() {
    let request = request_with(&[(RequestHeader::Connection, "keep-alive")]);
    let r = finish_response(Response::new(StatusCode::OK, b"hello"), None, &request, "D");
    assert_eq!(r.version, "HTTP/1.0");
    assert_eq!(r.headers.get(&ResponseHeader::Connection).unwrap(), "keep-alive");
    assert_eq!(r.headers.get(&ResponseHeader::Server).unwrap(), "Humphrey");
    assert_eq!(r.headers.get(&ResponseHeader::Date).unwrap(), "D");
    assert_eq!(r.headers.get(&ResponseHeader::ContentLength).unwrap(), "5");

    let request = request_with(&[]);
    let handler_response = Response::new(StatusCode::OK, b"hello")
        .with_header(ResponseHeader::Server, "Mine")
        .with_header(ResponseHeader::ContentLength, "99");
    let cors = Cors::wildcard();
    let r = finish_response(handler_response, Some(&cors), &request, "D");
    assert_eq!(r.headers.get(&ResponseHeader::Connection).unwrap(), "Close");
    assert_eq!(r.headers.get(&ResponseHeader::Server).unwrap(), "Mine");
    assert_eq!(r.headers.get(&ResponseHeader::ContentLength).unwrap(), "99");
    assert_eq!(r.headers.get(&ResponseHeader::AccessControlAllowOrigin).unwrap(), "*");
}

#[test]
fn https_redirects() {
    let r = https_redirect(&request_with(&[(RequestHeader::Host, "example.com")]));
    assert_eq!(r.status_code, StatusCode::MovedPermanently);
    assert_eq!(r.headers.get(&ResponseHeader::Location).unwrap(), "https://example.com/page");
    assert_eq!(r.headers.get(&ResponseHeader::Connection).unwrap(), "Close");
    let r = https_redirect(&request_with(&[]));
    assert_eq!(r.status_code, StatusCode::OK);
    assert_eq!(r.body, b"<h1>Please access over HTTPS</h1>".to_vec());
    assert_eq!(r.headers.get(&ResponseHeader::ContentLength).unwrap(), "33");
}

#[test]
fn directory_redirects_add_a_slash() {
    let r = directory_redirect("/docs");
    assert_eq!(r.status_code, StatusCode::MovedPermanently);
    assert_eq!(r.headers.get(&ResponseHeader::Location).unwrap(), "/docs/");
}

#[test]
fn proxy_responses() {
    let request = request_with(&[]);
    let r = forwarded_response(Response::new(StatusCode::OK, b"x"), &request);
    assert_eq!(r.headers.get(&ResponseHeader::from_name("X-Forwarded-For")).unwrap(), "1.2.3.4");
    let r = bad_gateway();
    assert_eq!(r.status_code, StatusCode::BadGateway);
    assert_eq!(r.text().unwrap(), "<html><body><h1>502 Bad Gateway</h1></body></html>");
}
