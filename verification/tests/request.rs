use humphrey::http::header_map::RequestHeaderMap;
use humphrey::http::headers::RequestHeader;
use humphrey::http::method::Method;
use humphrey::http::request::{Address, Request, RequestError, RequestHead};

/// Splits bytes into the lines a reader returns, each with its `\n`.
fn lines_of(data: &[u8]) -> Vec<Vec<u8>> {
    let mut lines = Vec::new();
    let mut current = Vec::new();
    for &b in data {
        current.push(b);
        if b == b'\n' {
            lines.push(std::mem::take(&mut current));
        }
    }
    if !current.is_empty() {
        lines.push(current);
    }
    lines
}

/// Reads a request head from its lines, returning it with the number of lines used.
fn read_head(lines: &[Vec<u8>]) -> Result<RequestHead, RequestError> {
    let mut head = RequestHead::start(&lines[0])?;
    for line in &lines[1..] {
        if head.read_line(line)? {
            break;
        }
    }
    Ok(head)
}

#[test]
fn test_request_from_stream() {
    let test_data = b"GET /testpath?foo=bar HTTP/1.1\r\nHost: localhost\r\n\r\n";
    let head = read_head(&lines_of(test_data));

    assert!(head.is_ok());

    let head = head.unwrap();
    assert_eq!(head.body_length(), Ok(None));
    let request = head.into_request(None, Address::new("1.2.3.4".to_string(), 5678));
    let expected_uri: String = "/testpath".into();
    let expected_query: String = "foo=bar".into();
    assert_eq!(request.method, Method::Get);
    assert_eq!(request.uri, expected_uri);
    assert_eq!(request.query, expected_query);
    assert_eq!(request.version, "HTTP/1.1");
    assert_eq!(request.content, None);
    assert_eq!(request.address, Address::new("1.2.3.4".to_string(), 5678));

    let mut expected_headers = RequestHeaderMap::new();
    expected_headers.insert(RequestHeader::Host, "localhost".to_string());
    assert_eq!(request.headers, expected_headers);
}

#[test]
fn test_bytes_from_request() {
    let mut test_data = Request {
        method: Method::Get,
        uri: "/test".into(),
        query: "foo=bar".into(),
        version: "HTTP/1.1".into(),
        headers: RequestHeaderMap::new(),
        content: Some(b"this is a test".to_vec()),
        address: Address::new("1.2.3.4".to_string(), 5678),
    };

    test_data.headers.insert(RequestHeader::ContentLength, "14".to_string());
    test_data.headers.insert(RequestHeader::ContentType, "text/plain".to_string());

    let expected_bytes = b"GET /test?foo=bar HTTP/1.1\r\nContent-Length: 14\r\nContent-Type: text/plain\r\n\r\nthis is a test".to_vec();

    let bytes: Vec<u8> = test_data.into_bytes();

    assert_eq!(bytes, expected_bytes);
}

#[test]
fn test_proxied_request_from_stream() {
    let test_data =
        b"GET /testpath HTTP/1.1\r\nHost: localhost\r\nX-Forwarded-For: 9.10.11.12,13.14.15.16\r\n\r\n";
    let head = read_head(&lines_of(test_data));

    assert!(head.is_ok());

    let head = head.unwrap();
    let forwarded = Address::forwarded_for(&head.headers).unwrap();
    assert_eq!(forwarded, vec!["9.10.11.12".to_string(), "13.14.15.16".to_string()]);
    let address = Address::from_proxy_chain(forwarded, "1.2.3.4".to_string(), 5678);
    let request = head.into_request(None, address);
    let expected_uri: String = "/testpath".into();
    assert_eq!(request.method, Method::Get);
    assert_eq!(request.uri, expected_uri);
    assert_eq!(request.version, "HTTP/1.1");
    assert_eq!(request.content, None);
    assert_eq!(
        request.address,
        Address {
            origin_addr: "13.14.15.16".to_string(),
            proxies: vec!["9.10.11.12".to_string(), "1.2.3.4".to_string()],
            port: 5678
        }
    );

    let mut expected_headers = RequestHeaderMap::new();
    expected_headers.insert(RequestHeader::Host, "localhost".to_string());
    expected_headers.insert(RequestHeader::from_name("X-Forwarded-For"), "9.10.11.12,13.14.15.16".to_string());

    assert_eq!(request.headers, expected_headers);
}

#[test]
fn request_line_errors() {
    assert!(matches!(RequestHead::start(b"GET /\r\n"), Err(RequestError::Request)));
    assert!(matches!(RequestHead::start(b"FETCH / HTTP/1.1\r\n"), Err(RequestError::Request)));
    assert!(matches!(RequestHead::start(&[0xff, b' ', b'/', b' ', b'x']), Err(RequestError::Request)));
    let head = RequestHead::start(b"POST /a?b?c HTTP/1.0\r\n").unwrap();
    assert_eq!(head.line.method, Method::Post);
    assert_eq!(head.line.uri, "/a");
    assert_eq!(head.line.query, "b?c");
    assert_eq!(head.line.version, "HTTP/1.0");
}

#[test]
fn header_lines_and_content_length() {
    let mut head = RequestHead::start(b"POST /form HTTP/1.1\r\n").unwrap();
    assert_eq!(head.read_line(b"no colon here\r\n"), Err(RequestError::Request));
    assert_eq!(head.read_line(b"a:\xe2\x82\xac"), Err(RequestError::Request));
    assert_eq!(head.read_line(b"content-length:   12\r\n"), Ok(false));
    assert_eq!(head.headers.get(&RequestHeader::ContentLength).unwrap(), "12");
    assert_eq!(head.body_length(), Ok(Some(12)));
    assert_eq!(head.read_line(b"Content-Length: x\r\n"), Ok(false));
    assert_eq!(head.body_length(), Err(RequestError::Request));
    assert_eq!(head.read_line(b"x"), Err(RequestError::Request));
    assert_eq!(head.read_line(b"\r\n"), Ok(true));
}

#[test]
fn custom_request_headers_are_case_insensitive() {
    assert_eq!(RequestHeader::from_name("HOST"), RequestHeader::Host);
    assert_eq!(RequestHeader::from_name("X-Thing").name(), "x-thing");
    assert_eq!(RequestHeader::from_name(&RequestHeader::UserAgent.name()), RequestHeader::UserAgent);
}

#[test]
fn address_without_proxies() {
    let address = Address::from_proxy_chain(Vec::new(), "5.6.7.8".to_string(), 80);
    assert_eq!(address, Address::new("5.6.7.8".to_string(), 80));
    let headers = RequestHeaderMap::new();
    assert_eq!(Address::forwarded_for(&headers), None);
}

#[test]
fn written_request_reads_back() {
    let mut headers = RequestHeaderMap::new();
    headers.insert(RequestHeader::Host, "example.com".to_string());
    headers.insert(RequestHeader::from_name("x-custom"), "a b".to_string());
    let request = Request {
        method: Method::Delete,
        uri: "/items/7".into(),
        query: "force=yes".into(),
        version: "HTTP/1.1".into(),
        headers: headers.clone(),
        content: None,
        address: Address::new("1.2.3.4".to_string(), 80),
    };
    let bytes = request.into_bytes();
    let head = read_head(&lines_of(&bytes)).unwrap();
    assert_eq!(head.line.method, Method::Delete);
    assert_eq!(head.line.uri, "/items/7");
    assert_eq!(head.line.query, "force=yes");
    assert_eq!(head.line.version, "HTTP/1.1");
    assert_eq!(head.headers, headers);
}
