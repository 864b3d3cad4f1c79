use humphrey::http::headers::ResponseHeader;
use humphrey::http::cookie::SetCookie;
use humphrey::http::response::{parse_chunk_size, BodyMode, Response, ResponseError, ResponseHead};
use humphrey::http::status::StatusCode;

#[test]
fn test_response() {
    let response = Response::empty(StatusCode::OK)
        .with_bytes(b"<body>test</body>")
        .with_header(ResponseHeader::ContentType, "text/html")
        .with_header(ResponseHeader::ContentLanguage, "en-GB")
        .with_header(ResponseHeader::Date, "Thu, 1 Jan 1970 00:00:00 GMT");

    assert!(response.get_headers().get(&ResponseHeader::ContentType).is_some());

    assert_eq!(
        response.get_headers().get(&ResponseHeader::ContentType).unwrap(),
        "text/html"
    );

    let expected_bytes: Vec<u8> = b"HTTP/1.1 200 OK\r\nDate: Thu, 1 Jan 1970 00:00:00 GMT\r\nContent-Language: en-GB\r\nContent-Type: text/html\r\n\r\n<body>test</body>\r\n".to_vec();
    let bytes: Vec<u8> = response.into_bytes();

    assert_eq!(bytes, expected_bytes);
}

/// Splits bytes into the lines a reader returns, each with its `\n`.
fn lines_of(data: &[u8]) -> Vec<Vec<u8>> {
    let mut lines = Vec::new();
    let mut current = Vec::new();
    for &b in data {
        current.push(b);
        if b == b'\n' {
            lines.push(std::mem::take(&mut current));
        }
    }
    if !current.is_empty() {
        lines.push(current);
    }
    lines
}

#[test]
fn test_response_from_stream() {
    let test_data = b"HTTP/1.1 404 Not Found\r\nContent-Length: 51\r\n\r\nThe requested resource was not found on the server.\r\n";
    let lines = lines_of(test_data);

    let mut head = ResponseHead::start(&lines[0]).unwrap();
    let mut consumed = lines[0].len();
    let mut i = 1;
    loop {
        let done = head.read_line(&lines[i]).unwrap();
        consumed += lines[i].len();
        i += 1;
        if done {
            break;
        }
    }
    let length = match head.body_mode().unwrap() {
        BodyMode::Length(n) => n,
        _ => panic!("expected a length"),
    };
    let body = test_data[consumed..consumed + length].to_vec();
    let response = head.into_response(body);

    let expected_body = b"The requested resource was not found on the server.".to_vec();
    assert_eq!(response.body, expected_body);
    assert_eq!(response.version, "HTTP/1.1".to_string());
    assert_eq!(response.status_code, StatusCode::NotFound);
    assert_eq!(response.headers.len(), 1);
    assert_eq!(response.headers.get(&ResponseHeader::ContentLength).unwrap(), "51");
}

#[test]
fn response_new_equals_empty_with_bytes() {
    let a = Response::new(StatusCode::Created, b"abc");
    let b = Response::empty(StatusCode::Created).with_bytes(b"abc");
    assert_eq!(a.version, b.version);
    assert_eq!(a.status_code, b.status_code);
    assert_eq!(a.body, b.body);
    assert_eq!(a.headers, b.headers);
    assert_eq!(a.into_bytes(), b"HTTP/1.1 201 Created\r\n\r\nabc\r\n".to_vec());
}

#[test]
fn response_without_body_has_no_trailing_line() {
    let r = Response::redirect("/elsewhere");
    assert_eq!(
        r.into_bytes(),
        b"HTTP/1.1 301 Moved Permanently\r\nLocation: /elsewhere\r\n\r\n".to_vec()
    );
}

#[test]
fn response_text_of_body() {
    assert_eq!(Response::new(StatusCode::OK, b"hi").text(), Some("hi".to_string()));
    assert_eq!(Response::new(StatusCode::OK, &[0xff, 0xfe]).text(), None);
}

#[test]
fn status_line_errors() {
    assert!(matches!(ResponseHead::start(b"HTTP/1.1 999 Nope\r\n"), Err(ResponseError::Response)));
    assert!(matches!(ResponseHead::start(b"HTTP/1.1\r\n"), Err(ResponseError::Response)));
    assert!(matches!(ResponseHead::start(b"HTTP/1.1 abc OK\r\n"), Err(ResponseError::Response)));
    let head = ResponseHead::start(b"HTTP/1.0 200 OK\r\n").unwrap();
    assert_eq!(head.version, "HTTP/1.0");
    assert_eq!(head.status_code, StatusCode::OK);
}

#[test]
fn chunked_response_is_unchunked() {
    let mut head = ResponseHead::start(b"HTTP/1.1 200 OK\r\n").unwrap();
    assert_eq!(head.read_line(b"Transfer-Encoding: chunked\r\n"), Ok(false));
    assert_eq!(head.read_line(b"\r\n"), Ok(true));
    assert_eq!(head.body_mode(), Ok(BodyMode::Chunked));
    assert_eq!(parse_chunk_size(b"1a\r\n"), Some(26));
    assert_eq!(parse_chunk_size(b"0\r\n"), Some(0));
    assert_eq!(parse_chunk_size(b"zz\r\n"), None);
    let response = head.into_unchunked_response(b"hello".to_vec());
    assert!(response.headers.get(&ResponseHeader::TransferEncoding).is_none());
    assert_eq!(response.headers.get(&ResponseHeader::ContentLength).unwrap(), "5");
}

#[test]
fn content_length_that_is_not_a_number_is_an_error() {
    let mut head = ResponseHead::start(b"HTTP/1.1 200 OK\r\n").unwrap();
    assert_eq!(head.read_line(b"Content-Length: many\r\n"), Ok(false));
    assert_eq!(head.body_mode(), Err(ResponseError::Response));
    let mut head = ResponseHead::start(b"HTTP/1.1 200 OK\r\n").unwrap();
    assert_eq!(head.read_line(b"\r\n"), Ok(true));
    assert_eq!(head.body_mode(), Ok(BodyMode::Empty));
}

#[test]
fn written_response_reads_back() {
    let original = Response::new(StatusCode::Accepted, b"payload")
        .with_header(ResponseHeader::ContentLength, "7")
        .with_header(ResponseHeader::Server, "Humphrey")
        .with_header(ResponseHeader::from_name("X-Extra"), "value: with colon")
        .with_cookie(SetCookie::new("a", "1"))
        .with_cookie(SetCookie::new("b", "2").with_path("/"));
    let version = original.version.clone();
    let status = original.status_code;
    let headers = original.headers.clone();
    let cookies = original.cookies.clone();
    let bytes = original.into_bytes();
    let lines = lines_of(&bytes);
    let mut head = ResponseHead::start(&lines[0]).unwrap();
    let mut consumed = lines[0].len();
    let mut i = 1;
    while !head.read_line(&lines[i]).unwrap() {
        consumed += lines[i].len();
        i += 1;
    }
    consumed += lines[i].len();
    assert_eq!(head.version, version);
    assert_eq!(head.status_code, status);
    assert_eq!(head.headers, headers);
    assert_eq!(head.cookies, cookies);
    assert_eq!(head.cookies, vec!["a=1".to_string(), "b=2; Path=/".to_string()]);
    assert_eq!(head.body_mode(), Ok(BodyMode::Length(7)));
    assert_eq!(&bytes[consumed..consumed + 7], b"payload");
}

#[test]
fn header_line_without_colon_is_an_error() {
    let mut head = ResponseHead::start(b"HTTP/1.1 200 OK\r\n").unwrap();
    assert_eq!(head.read_line(b"BadHeaderLine\r\n"), Err(ResponseError::Response));
    assert_eq!(head.read_line(b"\xff: x\r\n"), Err(ResponseError::Response));
    assert!(head.headers.is_empty());
}

#[test]
fn each_cookie_is_its_own_header_line() {
    let response = Response::empty(StatusCode::OK)
        .with_cookie(SetCookie::new("a", "1"))
        .with_cookie(SetCookie::new("b", "2"));
    assert_eq!(
        response.into_bytes(),
        b"HTTP/1.1 200 OK\r\nSet-Cookie: a=1\r\nSet-Cookie: b=2\r\n\r\n".to_vec()
    );
}
