use humphrey::fcgi::{FcgiRecord, FcgiType};
use humphrey::hot_reload::{
    find_body_end, get_url_prefix, hot_reload_response, inject_js, inject_variables,
};
use humphrey::http::header_map::RequestHeaderMap;
use humphrey::http::headers::{RequestHeader, ResponseHeader};
use humphrey::http::method::Method;
use humphrey::http::request::{Address, Request};
use humphrey::http::response::Response;
use humphrey::http::status::StatusCode;
use humphrey::php::{is_output_record, output_bytes, php_handles_uri, php_params, php_request_bytes, php_response};

#[test]
fn url_prefixes() {
    assert_eq!(get_url_prefix("/static/*"), Ok("/static/".to_string()));
    assert_eq!(get_url_prefix("/static"), Ok("/static".to_string()));
    assert_eq!(get_url_prefix("/*/x"), Err("Invalid URL prefix".to_string()));
    assert_eq!(get_url_prefix("/a/**"), Err("Invalid URL prefix".to_string()));
}

#[test]
fn scripts_go_before_the_body_end() {
    assert_eq!(find_body_end(b"<html><body></body></html>"), Some(12));
    assert_eq!(find_body_end(b"</body"), None);
    let mut response = Response::new(StatusCode::OK, b"<body>hi</body></body>");
    inject_js(&mut response, b"go()");
    assert_eq!(response.body, b"<body>hi<script>go()</script></body></body>".to_vec());
    let mut plain = Response::new(StatusCode::OK, b"no end tag");
    inject_js(&mut plain, b"go()");
    assert_eq!(plain.body, b"no end tag".to_vec());
}

#[test]
fn variables_are_injected() {
    let mut response = Response::new(StatusCode::OK, b"<body></body>");
    inject_variables(&mut response, Some("./site"), "/app/*", "/ws");
    let text = response.text().unwrap();
    assert!(text.starts_with("<body><script>\n"));
    assert!(text.contains("var __HUMPHREY_ROUTE_PATH = \"./site\";"));
    assert!(text.contains("var __HUMPHREY_ROUTE_URL_PREFIX = \"/app/\";"));
    assert!(text.contains("var __HUMPHREY_WS_ROUTE = \"/ws\""));
    assert!(text.ends_with("</script></body>"));
    let mut untouched = Response::new(StatusCode::OK, b"plain");
    inject_variables(&mut untouched, None, "/*/*", "/ws");
    assert_eq!(untouched.body, b"plain".to_vec());
}

#[test]
fn hot_reload_responses() {
    let mut html = Response::new(StatusCode::OK, b"<body></body>").with_header(ResponseHeader::ContentType, "text/html");
    hot_reload_response(&mut html, Some("."), "/*", "/ws", b"js");
    assert!(html.text().unwrap().ends_with("<script>js</script></body>"));
    let mut css = Response::new(StatusCode::OK, b"a{}").with_header(ResponseHeader::ContentType, "text/css");
    hot_reload_response(&mut css, None, "", "/ws", b"js");
    assert_eq!(css.headers.get(&ResponseHeader::CacheControl).unwrap(), "no-store");
    let mut image = Response::new(StatusCode::NotFound, b"x").with_header(ResponseHeader::ContentType, "image/png");
    hot_reload_response(&mut image, None, "", "/ws", b"js");
    assert_eq!(image.headers.get(&ResponseHeader::CacheControl).unwrap(), "no-store");
    let mut missing = Response::new(StatusCode::NotFound, b"<body></body>").with_header(ResponseHeader::ContentType, "text/html");
    hot_reload_response(&mut missing, None, "", "/ws", b"js");
    assert_eq!(missing.body, b"<body></body>".to_vec());
    assert!(missing.headers.get(&ResponseHeader::CacheControl).is_none());
}

fn php_request() -> Request {
    let mut headers = RequestHeaderMap::new();
    headers.insert(RequestHeader::Host, "localhost".to_string());
    headers.insert(RequestHeader::Cookie, "a=b".to_string());
    Request {
        method: Method::Post,
        uri: "index.php".to_string(),
        query: "x=1".to_string(),
        version: "HTTP/1.1".to_string(),
        headers,
        content: Some(b"data".to_vec()),
        address: Address::new("1.2.3.4".to_string(), 80),
    }
}

#[test]
fn php_uris() {
    assert!(php_handles_uri("a/b.php"));
    assert!(php_handles_uri("dir/"));
    assert!(php_handles_uri(""));
    assert!(!php_handles_uri("style.css"));
}

#[test]
fn php_parameters() {
    let params = php_params(&php_request(), "/srv/index.php", "/srv");
    let find = |name: &str| params.iter().find(|p| p.0 == name).map(|p| p.1.clone());
    assert_eq!(params.len(), 16);
    assert_eq!(find("REQUEST_METHOD"), Some("POST".to_string()));
    assert_eq!(find("REQUEST_URI"), Some("/index.php".to_string()));
    assert_eq!(find("SCRIPT_FILENAME"), Some("/srv/index.php".to_string()));
    assert_eq!(find("QUERY_STRING"), Some("x=1".to_string()));
    assert_eq!(find("CONTENT_LENGTH"), Some("4".to_string()));
    assert_eq!(find("HTTP_HOST"), Some("localhost".to_string()));
    assert_eq!(find("HTTP_COOKIE"), Some("a=b".to_string()));
    assert_eq!(find("HTTP_USER_AGENT"), None);
    assert!(php_request_bytes(&php_request(), "/srv/page.html", "/srv").is_none());
    let bytes = php_request_bytes(&php_request(), "/srv/index.php", "/srv").unwrap();
    assert_eq!(&bytes[..8], &[1, 1, 0, 0, 0, 8, 0, 0]);
    assert_eq!(&bytes[bytes.len() - 8..], &[1, 5, 0, 0, 0, 0, 0, 0]);
}

#[test]
fn php_output_becomes_a_response() {
    let records = vec![
        FcgiRecord::new(FcgiType::Stdout, b"Status: 404 Not Found\r\nContent-type: text/html\r\n", 0),
        FcgiRecord::new(FcgiType::Stdout, b"X-Thing:  yes \r\n\r\n<p>missing</p>", 0),
    ];
    assert!(is_output_record(FcgiType::Stderr));
    assert!(!is_output_record(FcgiType::End));
    let output = output_bytes(&records);
    let response = php_response(&output);
    assert_eq!(response.status_code, StatusCode::NotFound);
    assert_eq!(response.body, b"<p>missing</p>".to_vec());
    assert_eq!(response.headers.get(&ResponseHeader::from_name("Content-type")).unwrap(), "text/html");
    assert_eq!(response.headers.get(&ResponseHeader::from_name("X-Thing")).unwrap(), "yes");
    assert_eq!(response.headers.len(), 2);
    let plain = php_response(b"just text");
    assert_eq!(plain.status_code, StatusCode::OK);
    assert!(plain.body.is_empty());
    let unknown = php_response(b"Status: 299 Odd\r\n\r\nok");
    assert_eq!(unknown.status_code, StatusCode::OK);
    assert_eq!(unknown.body, b"ok".to_vec());
}
