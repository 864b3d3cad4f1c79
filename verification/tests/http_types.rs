use std::time::Duration;

use humphrey::http::cookie::{Cookie, SameSite, SetCookie};
use humphrey::http::cors::Cors;
use humphrey::http::date::DateTime;
use humphrey::http::header_map::{RequestHeaderMap, ResponseHeaderMap};
use humphrey::http::headers::{RequestHeader, ResponseHeader};
use humphrey::http::method::Method;
use humphrey::http::mime::MimeType;
use humphrey::http::request::{Address, RequestError};
use humphrey::http::response::Response;
use humphrey::http::status::StatusCode;

#[test]
fn status_codes_and_reasons() {
    assert_eq!(StatusCode::OK.code(), 200);
    assert_eq!(StatusCode::NotFound.reason_phrase(), "Not Found");
    assert_eq!(StatusCode::from_code(404), Ok(StatusCode::NotFound));
    assert!(StatusCode::from_code(299).is_err());
    assert_eq!(u16::from(StatusCode::InternalError), 500);
    assert_eq!(StatusCode::try_from(418u16).is_err(), true);
}

#[test]
fn every_status_code_round_trips() {
    for code in 0u16..=999 {
        if let Ok(status) = StatusCode::from_code(code) {
            assert_eq!(status.code(), code);
        }
    }
}

#[test]
fn methods_by_name() {
    assert_eq!(Method::from_name("GET"), Ok(Method::Get));
    assert_eq!(Method::from_name("PATCH"), Ok(Method::Patch));
    assert_eq!(Method::from_name("get"), Err(RequestError::Request));
    assert_eq!(Method::Options.name(), "OPTIONS");
}

#[test]
fn mime_types_by_extension() {
    assert_eq!(MimeType::from_extension("htm").as_str(), "text/html");
    assert_eq!(MimeType::from_extension("jpg").as_str(), "image/jpeg");
    assert_eq!(MimeType::from_extension("woff2").to_string(), "font/woff2");
    assert_eq!(MimeType::from_extension("unknown").as_str(), "application/octet-stream");
}

#[test]
fn header_map_read_after_write() {
    let mut map = ResponseHeaderMap::new();
    assert!(map.is_empty());
    assert_eq!(map.insert(ResponseHeader::Server, "a".to_string()), None);
    assert_eq!(map.insert(ResponseHeader::Server, "b".to_string()), Some("a".to_string()));
    assert_eq!(map.get(&ResponseHeader::Server).unwrap(), "b");
    assert_eq!(map.len(), 1);
    assert_eq!(map.remove(&ResponseHeader::Server), Some("b".to_string()));
    assert!(map.get(&ResponseHeader::Server).is_none());
    assert_eq!(map.remove(&ResponseHeader::Server), None);
}

#[test]
fn header_map_orders_response_headers_by_category() {
    let mut map = ResponseHeaderMap::new();
    map.insert(ResponseHeader::ContentType, "text/plain".to_string());
    map.insert(ResponseHeader::Server, "x".to_string());
    map.insert(ResponseHeader::Date, "d".to_string());
    map.insert(ResponseHeader::from_name("X-Custom"), "c".to_string());
    let names: Vec<String> = (0..map.len()).map(|i| map.entry_at(i).0.name()).collect();
    assert_eq!(names, vec!["Date", "Server", "Content-Type", "X-Custom"]);
    let copy = map.clone();
    assert_eq!(copy, map);
}

#[test]
fn header_map_orders_request_headers_by_position() {
    let mut map = RequestHeaderMap::new();
    map.insert(RequestHeader::UserAgent, "u".to_string());
    map.insert(RequestHeader::from_name("x-b"), "b".to_string());
    map.insert(RequestHeader::Accept, "a".to_string());
    map.insert(RequestHeader::from_name("x-a"), "a".to_string());
    let names: Vec<String> = (0..map.len()).map(|i| map.entry_at(i).0.name()).collect();
    assert_eq!(names, vec!["Accept", "User-Agent", "x-a", "x-b"]);
}

#[test]
fn response_header_names_round_trip() {
    assert_eq!(ResponseHeader::from_name("Set-Cookie"), ResponseHeader::SetCookie);
    assert_eq!(ResponseHeader::from_name("set-cookie").name(), "set-cookie");
    assert_eq!(ResponseHeader::from_name(&ResponseHeader::ETag.name()), ResponseHeader::ETag);
    assert_eq!(ResponseHeader::Date.category(), 0);
    assert_eq!(ResponseHeader::Server.category(), 1);
    assert_eq!(ResponseHeader::ContentType.category(), 2);
}

#[test]
fn cookies_header() {
    assert!(Cookie::to_header(&[]).is_none());
    let header = Cookie::to_header(&[Cookie::new("a", "1"), Cookie::new("b", "2")]).unwrap();
    assert_eq!(header.name, "Cookie");
    assert_eq!(header.value, "a=1; b=2");
}

#[test]
fn set_cookie_header() {
    let cookie = SetCookie::new("SessionToken", "abc123")
        .with_max_age(Duration::from_secs(3600))
        .with_secure(true)
        .with_path("/");
    let header = cookie.to_header();
    assert_eq!(header.name, "Set-Cookie");
    assert_eq!(header.value, "SessionToken=abc123; Max-Age=3600; Path=/; Secure");
    let other = SetCookie::new("a", "b")
        .with_expires("never")
        .with_domain("example.com")
        .with_same_site(SameSite::Unrestricted)
        .with_http_only(true);
    assert_eq!(
        other.header_value(None),
        "a=b; Expires=never; Domain=example.com; SameSite=None; HttpOnly"
    );
}

#[test]
fn cors_headers() {
    let mut headers = ResponseHeaderMap::new();
    Cors::wildcard().set_headers(&mut headers);
    assert_eq!(headers.get(&ResponseHeader::AccessControlAllowOrigin).unwrap(), "*");
    assert_eq!(headers.get(&ResponseHeader::from_name("Access-Control-Allow-Headers")).unwrap(), "*");
    assert_eq!(headers.get(&ResponseHeader::from_name("Access-Control-Allow-Methods")).unwrap(), "*");
    assert_eq!(headers.len(), 3);

    let mut headers = ResponseHeaderMap::new();
    Cors::new()
        .with_origin("https://a.example")
        .with_origin("https://b.example")
        .with_method(Method::Get)
        .with_method(Method::Post)
        .with_header("X-Token")
        .set_headers(&mut headers);
    assert_eq!(
        headers.get(&ResponseHeader::AccessControlAllowOrigin).unwrap(),
        "https://a.example, https://b.example"
    );
    assert_eq!(headers.get(&ResponseHeader::from_name("Access-Control-Allow-Methods")).unwrap(), "GET, POST");
    assert_eq!(headers.get(&ResponseHeader::from_name("Access-Control-Allow-Headers")).unwrap(), "X-Token");

    let mut headers = ResponseHeaderMap::new();
    Cors::new().set_headers(&mut headers);
    assert!(headers.is_empty());
}

#[test]
fn dates_from_timestamps() {
    let epoch = DateTime::from_timestamp(0);
    assert_eq!((epoch.year, epoch.month, epoch.day, epoch.weekday), (1970, 0, 1, 4));
    assert_eq!(epoch.to_string(), "Thu, 01 Jan 1970 00:00:00 GMT");
    let leap = DateTime::from_timestamp(951868800);
    assert_eq!(leap.to_string(), "Wed, 01 Mar 2000 00:00:00 GMT");
    let later = DateTime::from_timestamp(1700000000);
    assert_eq!(later.to_string(), "Tue, 14 Nov 2023 22:13:20 GMT");
    assert_eq!(later.get_timestamp(), 1700000000);
    let before = DateTime::from_timestamp(-1);
    assert_eq!(before.to_string(), "Wed, 31 Dec 1969 23:59:59 GMT");
    let leap_day = DateTime::from_timestamp(951782400);
    assert_eq!(leap_day.to_string(), "Tue, 29 Feb 2000 00:00:00 GMT");
}

#[test]
fn date_now_is_after_epoch() {
    let now = DateTime::now();
    assert!(now.year >= 2020);
    assert!(now.month < 12);
}

#[test]
fn cookies_on_responses() {
    let response = Response::empty(StatusCode::OK).with_cookie(SetCookie::new("a", "b").with_http_only(true));
    assert_eq!(response.cookies, vec!["a=b; HttpOnly".to_string()]);
    let response = response.with_cookie(SetCookie::new("c", "d").with_max_age(Duration::from_secs(60)));
    assert_eq!(response.cookies, vec!["a=b; HttpOnly".to_string(), "c=d; Max-Age=60".to_string()]);
    assert!(response.headers.get(&ResponseHeader::SetCookie).is_none());
}

#[test]
fn cors_wildcard_parts() {
    let mut headers = ResponseHeaderMap::new();
    Cors::new()
        .with_wildcard_origin()
        .with_wildcard_methods()
        .with_wildcard_headers()
        .with_origin("https://ignored.example")
        .set_headers(&mut headers);
    assert_eq!(headers.get(&ResponseHeader::AccessControlAllowOrigin).unwrap(), "*");
    assert_eq!(headers.get(&ResponseHeader::from_name("Access-Control-Allow-Headers")).unwrap(), "*");
    assert_eq!(headers.get(&ResponseHeader::from_name("Access-Control-Allow-Methods")).unwrap(), "*");
}

#[test]
fn headers_in_order() {
    assert!(ResponseHeader::Date.precedes(&ResponseHeader::Server));
    assert!(ResponseHeader::Server.precedes(&ResponseHeader::ContentType));
    assert!(!ResponseHeader::ContentType.precedes(&ResponseHeader::ContentType));
    assert!(RequestHeader::Accept.precedes(&RequestHeader::Host));
    assert!(RequestHeader::Warning.precedes(&RequestHeader::from_name("a-custom")));
}

#[test]
fn addresses_as_text() {
    assert_eq!(Address::new("1.2.3.4".to_string(), 80).to_string(), "1.2.3.4");
    let proxied = Address::from_proxy_chain(vec!["5.6.7.8".to_string()], "1.2.3.4".to_string(), 80);
    assert_eq!(proxied.to_string(), "5.6.7.8 (proxied)");
}

#[test]
fn set_cookie_header_with_every_attribute() {
    let header = SetCookie::new("id", "x")
        .with_expires("Thu, 01 Jan 1970 00:00:00 GMT")
        .with_max_age(Duration::from_secs(60))
        .with_domain("a.com")
        .with_path("/")
        .with_same_site(SameSite::Lax)
        .with_secure(true)
        .with_http_only(true)
        .to_header();
    assert_eq!(header.name, "Set-Cookie");
    assert_eq!(
        header.value,
        "id=x; Expires=Thu, 01 Jan 1970 00:00:00 GMT; Max-Age=60; Domain=a.com; Path=/; SameSite=Lax; Secure; HttpOnly"
    );
    let fractional = SetCookie::new("a", "b").with_max_age(Duration::from_millis(2999)).to_header();
    assert_eq!(fractional.value, "a=b; Max-Age=2");
}

#[test]
fn request_header_names_ignore_case() {
    assert_eq!(RequestHeader::from_name("HOST"), RequestHeader::Host);
    assert_eq!(RequestHeader::from_name("user-AGENT"), RequestHeader::UserAgent);
    assert_eq!(RequestHeader::from_name("User-Agent"), RequestHeader::from_name("user-agent"));
    assert_eq!(
        RequestHeader::from_name("X-Forwarded-For"),
        RequestHeader::Custom { name: "x-forwarded-for".into() }
    );
    assert_eq!(RequestHeader::from_name(&RequestHeader::Warning.name()), RequestHeader::Warning);
}
