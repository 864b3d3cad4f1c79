//! HTTP responses: building them and writing them out as bytes.

use vstd::prelude::*;
use vstd::utf8::{decode_utf8, encode_utf8, valid_utf8};

use crate::http::cookie::{max_age_secs, set_cookie_value, SetCookie};
use crate::http::header_map::{
    insert_all_from, insert_entry, lemma_insert_all_from_push, lemma_insert_all_sorted, lookup,
    remove_entry, sorted_by_key, HeaderKey, ResponseHeaderMap,
};
use crate::http::headers::{
    lemma_response_header_name_roundtrip, response_header_from_spec, response_header_index_of,
    ResponseHeader, RESPONSE_HEADER_COUNT,
};
use crate::http::lines::{
    header_line_spec, lemma_encode_crlf, lemma_encode_utf8_concat,
    lemma_header_line_roundtrip, read_header_line, split3, split3_spec, written_header_line,
    HeaderLine, lemma_written_header_line, written_header_lines, lemma_end_line, written_line_seq,
    writable_entry, lemma_written_lines_flatten,
};
use crate::http::status::{lemma_status_code_roundtrip, spec_status_from_code, StatusCode};
use crate::text::{
    decimal, decimal_string, extend_bytes, extend_str, owned_string, parse_unsigned,
    parse_unsigned_str, push_decimal, str_eq, string_push, string_push_str, trim_end,
    trim_end_spec, is_white_space, lemma_first_index_of_prefix, lemma_parse_decimal,
};

verus! {

/// A response from the server.
///
/// ## Simple Creation
/// ```
/// Response::new(StatusCode::OK, b"Success")
/// ```
///
/// ## Advanced Creation
/// ```
/// Response::empty(StatusCode::OK)
///     .with_bytes(b"Success")
///     .with_header(ResponseHeader::ContentType, "text/plain")
/// ```
#[derive(Clone, Debug)]
pub struct Response {
    /// The HTTP version of the response.
    pub version: String,
    /// The status code of the response, for example 200 OK.
    pub status_code: StatusCode,
    /// The headers included in the response.
    pub headers: ResponseHeaderMap,
    /// The values of the response's `Set-Cookie` headers, one per cookie, in order; each
    /// is written as a header line of its own after the other headers.
    pub cookies: Vec<String>,
    /// The body of the response.
    pub body: Vec<u8>,
}

impl Response {
    /// The texts of the `Set-Cookie` headers.
    pub open spec fn cookie_texts(&self) -> Seq<Seq<char>> {
        self.cookies@.map_values(|s: String| s@)
    }
}

/// An error which occurred while reading a response.
#[derive(Clone, Copy, Debug, PartialEq, Eq, Structural)]
pub enum ResponseError {
    /// The response could not be parsed due to invalid data.
    Response,
    /// The response could not be parsed due to an issue with the stream.
    Stream,
}

/// The header entries of `Set-Cookie` headers with the given values.
pub open spec fn cookie_entries(cookies: Seq<Seq<char>>) -> Seq<((nat, Seq<char>), Seq<char>)> {
    cookies.map_values(|v: Seq<char>| (ResponseHeader::SetCookie@, v))
}

/// The bytes of one header line: `\r\n`, the name, `: ` and the value.
pub open spec fn header_line_bytes(entry: ((nat, Seq<char>), Seq<char>)) -> Seq<u8> {
    seq![13u8, 10u8] + encode_utf8(entry.0.1) + seq![58u8, 32u8] + encode_utf8(entry.1)
}

/// The bytes of all header lines, in order.
pub open spec fn headers_bytes(entries: Seq<((nat, Seq<char>), Seq<char>)>) -> Seq<u8>
    decreases entries.len(),
{
    if entries.len() == 0 {
        Seq::empty()
    } else {
        headers_bytes(entries.drop_last()) + header_line_bytes(entries.last())
    }
}

/// The status line of a response: the version, the numeric code and the reason phrase,
/// separated by spaces.
pub open spec fn status_line(version: Seq<char>, status: StatusCode) -> Seq<char> {
    version + seq![' '] + decimal(status.spec_code() as nat) + seq![' '] + status.spec_reason()
}

/// The bytes sent for a response: the status line, each header line, a `Set-Cookie`
/// line for each cookie, an empty line, and the body followed by `\r\n` when the body is
/// not empty.
pub open spec fn response_bytes(
    version: Seq<char>,
    status: StatusCode,
    headers: Seq<((nat, Seq<char>), Seq<char>)>,
    cookies: Seq<Seq<char>>,
    body: Seq<u8>,
) -> Seq<u8> {
    encode_utf8(status_line(version, status)) + headers_bytes(headers + cookie_entries(cookies))
        + seq![13u8, 10u8, 13u8, 10u8]
        + if body.len() == 0 {
        Seq::<u8>::empty()
    } else {
        body + seq![13u8, 10u8]
    }
}

/// Copies bytes into a new vector.
fn bytes_to_vec(bytes: &[u8]) -> (r: Vec<u8>)
    ensures
        r@ == bytes@,
{
    let mut v = Vec::new();
    extend_bytes(&mut v, bytes);
    assert(v@ =~= bytes@);
    v
}

/// The text whose UTF-8 encoding is the given bytes, if they are valid UTF-8.
///
/// Wraps `String::from_utf8`, which by its documentation fails exactly on bytes that are
/// not valid UTF-8 and otherwise holds the text they encode.
#[verifier::external_body]
fn string_from_utf8(bytes: Vec<u8>) -> (r: Option<String>)
    ensures
        r is Some <==> valid_utf8(bytes@),
        r matches Some(s) ==> s@ == decode_utf8(bytes@),
{
    String::from_utf8(bytes).ok()
}

/// The text whose UTF-8 encoding is the given bytes, if they are valid UTF-8.
pub(crate) fn utf8_string(bytes: &[u8]) -> (r: Option<String>)
    ensures
        r is Some <==> valid_utf8(bytes@),
        r matches Some(s) ==> s@ == decode_utf8(bytes@),
{
    string_from_utf8(bytes_to_vec(bytes))
}

impl Response {
    /// Creates a response with the given status code and body, version `HTTP/1.1` and
    /// no headers.
    pub fn new(status_code: StatusCode, bytes: &[u8]) -> (r: Response)
        ensures
            r.version@ == "HTTP/1.1"@,
            r.status_code == status_code,
            r.headers@.len() == 0,
            r.cookies@.len() == 0,
            r.body@ == bytes@,
    {
        Response {
            version: owned_string("HTTP/1.1"),
            status_code,
            headers: ResponseHeaderMap::new(),
            cookies: Vec::new(),
            body: bytes_to_vec(bytes),
        }
    }

    /// Creates a response with the given status code, version `HTTP/1.1`, no headers and
    /// an empty body.
    pub fn empty(status_code: StatusCode) -> (r: Response)
        ensures
            r.version@ == "HTTP/1.1"@,
            r.status_code == status_code,
            r.headers@.len() == 0,
            r.cookies@.len() == 0,
            r.body@.len() == 0,
    {
        Response {
            version: owned_string("HTTP/1.1"),
            status_code,
            headers: ResponseHeaderMap::new(),
            cookies: Vec::new(),
            body: Vec::new(),
        }
    }

    /// Creates a `301 Moved Permanently` response to the given location.
    pub fn redirect(location: &str) -> (r: Response)
        ensures
            r.version@ == "HTTP/1.1"@,
            r.status_code == StatusCode::MovedPermanently,
            r.headers@ == seq![((16nat, "Location"@), location@)],
            r.cookies@.len() == 0,
            r.body@.len() == 0,
    {
        let r = Response::empty(StatusCode::MovedPermanently).with_header(
            ResponseHeader::Location,
            location,
        );
        assert(r.headers@ =~= seq![((16nat, "Location"@), location@)]);
        r
    }

    /// Sets the given header to the given value, replacing any value it had.
    pub fn with_header(self, header: ResponseHeader, value: &str) -> (r: Response)
        ensures
            r.version == self.version,
            r.status_code == self.status_code,
            r.headers@ == insert_entry::<ResponseHeader>(self.headers@, header@, value@),
            r.cookies == self.cookies,
            r.body == self.body,
    {
        let mut response = self;
        response.headers.insert(header, owned_string(value));
        response
    }

    /// Adds a `Set-Cookie` header for the given cookie after those already added.
    pub fn with_cookie(self, cookie: SetCookie) -> (r: Response)
        ensures
            r.version == self.version,
            r.status_code == self.status_code,
            r.headers == self.headers,
            r.cookie_texts() == self.cookie_texts().push(
                set_cookie_value(cookie, max_age_secs(cookie)),
            ),
            r.body == self.body,
    {
        let header = cookie.to_header();
        let mut response = self;
        let ghost before = response.cookies@;
        let value = header.value;
        response.cookies.push(value);
        assert(response.cookies@ == before.push(value));
        assert(response.cookies@.map_values(|s: String| s@) =~= before.map_values(|s: String| s@).push(
            value@,
        ));
        response
    }

    /// Appends the given bytes to the body.
    pub fn with_bytes(self, bytes: &[u8]) -> (r: Response)
        ensures
            r.version == self.version,
            r.status_code == self.status_code,
            r.headers == self.headers,
            r.cookies == self.cookies,
            r.body@ == self.body@ + bytes@,
    {
        let mut response = self;
        extend_bytes(&mut response.body, bytes);
        response
    }

    /// The response's headers.
    pub fn get_headers(&self) -> (r: &ResponseHeaderMap)
        ensures
            r == &self.headers,
    {
        &self.headers
    }

    /// The body as text, if it is valid UTF-8.
    pub fn text(&self) -> (r: Option<String>)
        ensures
            r is Some <==> valid_utf8(self.body@),
            r matches Some(s) ==> s@ == decode_utf8(self.body@),
    {
        utf8_string(self.body.as_slice())
    }

    /// Writes the response out as the bytes sent to the client.
    pub fn into_bytes(self) -> (r: Vec<u8>)
        ensures
            r@ == response_bytes(
                self.version@,
                self.status_code,
                self.headers@,
                self.cookie_texts(),
                self.body@,
            ),
    {
        let mut line = String::new();
        string_push_str(&mut line, self.version.as_str());
        string_push(&mut line, ' ');
        push_decimal(&mut line, self.status_code.code() as u64);
        string_push(&mut line, ' ');
        string_push_str(&mut line, self.status_code.reason_phrase());
        assert(line@ =~= status_line(self.version@, self.status_code));
        let mut bytes: Vec<u8> = Vec::new();
        extend_str(&mut bytes, line.as_str());
        let ghost start = bytes@;
        let n = self.headers.len();
        let mut i: usize = 0;
        while i < n
            invariant
                n == self.headers@.len(),
                i <= n,
                bytes@ == start + headers_bytes(self.headers@.take(i as int)),
            decreases n - i,
        {
            let (header, value) = self.headers.entry_at(i);
            let name = header.header_name();
            let ghost before = bytes@;
            bytes.push(13);
            bytes.push(10);
            extend_str(&mut bytes, name.as_str());
            bytes.push(58);
            bytes.push(32);
            extend_str(&mut bytes, value.as_str());
            proof {
                let t = self.headers@.take(i + 1);
                assert(t.drop_last() =~= self.headers@.take(i as int));
                assert(t.last() == self.headers@[i as int]);
                assert(bytes@ =~= before + header_line_bytes(self.headers@[i as int]));
            }
            i = i + 1;
        }
        assert(self.headers@.take(n as int) =~= self.headers@);
        assert(self.headers@ + cookie_entries(self.cookie_texts().take(0)) =~= self.headers@);
        let m = self.cookies.len();
        let mut j: usize = 0;
        while j < m
            invariant
                m == self.cookies@.len(),
                j <= m,
                bytes@ == start + headers_bytes(
                    self.headers@ + cookie_entries(self.cookie_texts().take(j as int)),
                ),
            decreases m - j,
        {
            let value = &self.cookies[j];
            let ghost before = bytes@;
            bytes.push(13);
            bytes.push(10);
            extend_str(&mut bytes, "Set-Cookie");
            bytes.push(58);
            bytes.push(32);
            extend_str(&mut bytes, value.as_str());
            proof {
                let cs = self.cookie_texts();
                let t = self.headers@ + cookie_entries(cs.take(j + 1));
                assert(t.drop_last() =~= self.headers@ + cookie_entries(cs.take(j as int)));
                assert(t.last() == (ResponseHeader::SetCookie@, value@));
                reveal_strlit("Set-Cookie");
                assert(bytes@ =~= before + header_line_bytes(t.last()));
            }
            j = j + 1;
        }
        assert(self.cookie_texts().take(m as int) =~= self.cookie_texts());
        let ghost with_headers = bytes@;
        bytes.push(13);
        bytes.push(10);
        bytes.push(13);
        bytes.push(10);
        if self.body.len() > 0 {
            extend_bytes(&mut bytes, self.body.as_slice());
            bytes.push(13);
            bytes.push(10);
        }
        assert(bytes@ =~= response_bytes(
            self.version@,
            self.status_code,
            self.headers@,
            self.cookie_texts(),
            self.body@,
        ));
        bytes
    }
}

} // verus!
verus! {

/// How a response's status line reads: it must be valid UTF-8 with at least two spaces;
/// the part before the first space is the version and the part between the first two
/// spaces must be the number of a known status code.
pub open spec fn status_line_spec(bytes: Seq<u8>) -> Result<(Seq<char>, StatusCode), ResponseError> {
    if !valid_utf8(bytes) {
        Err(ResponseError::Response)
    } else {
        match split3_spec(decode_utf8(bytes)) {
            None => Err(ResponseError::Response),
            Some((version, code, _)) => match parse_unsigned(code, 10, 65535) {
                None => Err(ResponseError::Response),
                Some(n) => match spec_status_from_code(n as u16) {
                    None => Err(ResponseError::Response),
                    Some(s) => Ok((version, s)),
                },
            },
        }
    }
}

/// Reads the status line of a response.
pub fn parse_status_line(bytes: &[u8]) -> (r: Result<(String, StatusCode), ResponseError>)
    ensures
        match status_line_spec(bytes@) {
            Ok((v, s)) => r matches Ok((x, y)) && x@ == v && y == s,
            Err(e) => r matches Err(x) && x == e,
        },
{
    let text = match utf8_string(bytes) {
        Some(t) => t,
        None => return Err(ResponseError::Response),
    };
    let (version, code, _) = match split3(text.as_str()) {
        Some(p) => p,
        None => return Err(ResponseError::Response),
    };
    let n = match parse_unsigned_str(code.as_str(), 10, 65535) {
        Some(n) => n,
        None => return Err(ResponseError::Response),
    };
    match StatusCode::from_code(n as u16) {
        Ok(s) => Ok((version, s)),
        Err(_) => Err(ResponseError::Response),
    }
}

/// How a head line of a response reads: `Err` when it cannot be read, `None` for the end
/// line, otherwise the header it names (matched exactly) and its value.
pub open spec fn response_header_line_spec(bytes: Seq<u8>) -> Result<
    Option<((nat, Seq<char>), Seq<char>)>,
    ResponseError,
> {
    match header_line_spec(bytes) {
        None => Err(ResponseError::Response),
        Some(None) => Ok(None),
        Some(Some((name, value))) => Ok(Some((response_header_from_spec(name), value))),
    }
}

/// Reads one head line of a response.
pub fn parse_response_header_line(bytes: &[u8]) -> (r: Result<Option<(ResponseHeader, String)>, ResponseError>)
    ensures
        match response_header_line_spec(bytes@) {
            Err(e) => r matches Err(x) && x == e,
            Ok(None) => r matches Ok(None),
            Ok(Some((h, v))) => r matches Ok(Some((x, y))) && x@ == h && y@ == v,
        },
{
    match read_header_line(bytes) {
        None => Err(ResponseError::Response),
        Some(HeaderLine::End) => Ok(None),
        Some(HeaderLine::Field(name, value)) => Ok(Some((ResponseHeader::from_name(name.as_str()), value))),
    }
}

/// How the body of a response is to be read.
#[derive(Clone, Copy, Debug, PartialEq, Eq, Structural)]
pub enum BodyMode {
    /// In chunks of the chunked transfer encoding.
    Chunked,
    /// As this many bytes.
    Length(usize),
    /// There is no body.
    Empty,
}

/// How a response's headers say its body is sent: chunked when `Transfer-Encoding` is
/// exactly `chunked`; otherwise as many bytes as `Content-Length` says, an error when
/// that is not a number that fits a `usize`; otherwise no body.
pub open spec fn body_mode_spec(headers: Seq<((nat, Seq<char>), Seq<char>)>) -> Result<BodyMode, ResponseError> {
    if lookup::<ResponseHeader>(headers, ResponseHeader::key_of(ResponseHeader::TransferEncoding@))
        == Some("chunked"@) {
        Ok(BodyMode::Chunked)
    } else {
        match lookup::<ResponseHeader>(headers, ResponseHeader::key_of(ResponseHeader::ContentLength@)) {
            None => Ok(BodyMode::Empty),
            Some(v) => match parse_unsigned(v, 10, usize::MAX as nat) {
                Some(n) => Ok(BodyMode::Length(n as usize)),
                None => Err(ResponseError::Response),
            },
        }
    }
}

/// Decides how the body of a response is to be read from its headers.
pub fn body_mode(headers: &ResponseHeaderMap) -> (r: Result<BodyMode, ResponseError>)
    ensures
        r == body_mode_spec(headers@),
{
    if let Some(te) = headers.get(&ResponseHeader::TransferEncoding) {
        if str_eq(te.as_str(), "chunked") {
            return Ok(BodyMode::Chunked);
        }
    }
    match headers.get(&ResponseHeader::ContentLength) {
        None => Ok(BodyMode::Empty),
        Some(v) => match parse_unsigned_str(v.as_str(), 10, usize::MAX as u64) {
            Some(n) => Ok(BodyMode::Length(n as usize)),
            None => Err(ResponseError::Response),
        },
    }
}

/// The size that a chunk's size line gives: valid UTF-8 holding a base-16 number that
/// fits a `usize`, after trailing white space is removed.
pub open spec fn chunk_size_spec(bytes: Seq<u8>) -> Option<nat> {
    if !valid_utf8(bytes) {
        None
    } else {
        parse_unsigned(trim_end_spec(decode_utf8(bytes)), 16, usize::MAX as nat)
    }
}

/// Reads the size line of a chunk; a size of zero marks the last chunk.
pub fn parse_chunk_size(bytes: &[u8]) -> (r: Option<usize>)
    ensures
        match chunk_size_spec(bytes@) {
            Some(n) => r == Some(n as usize),
            None => r is None,
        },
{
    let text = match utf8_string(bytes) {
        Some(t) => t,
        None => return None,
    };
    let trimmed = trim_end(text.as_str());
    match parse_unsigned_str(trimmed.as_str(), 16, usize::MAX as u64) {
        Some(n) => Some(n as usize),
        None => None,
    }
}

/// Once a chunked body has been read: drops the `Transfer-Encoding` header and sets
/// `Content-Length` to the length of the body.
pub fn finish_chunked(headers: &mut ResponseHeaderMap, body_len: usize)
    ensures
        final(headers)@ == insert_entry::<ResponseHeader>(
            remove_entry::<ResponseHeader>(
                old(headers)@,
                ResponseHeader::key_of(ResponseHeader::TransferEncoding@),
            ),
            ResponseHeader::ContentLength@,
            decimal(body_len as nat),
        ),
{
    headers.remove(&ResponseHeader::TransferEncoding);
    headers.insert(ResponseHeader::ContentLength, decimal_string(body_len as u64));
}

/// The head of a response while it is being read: its version, status and the headers
/// read so far.
#[derive(Clone, Debug)]
pub struct ResponseHead {
    /// The HTTP version of the response.
    pub version: String,
    /// The status of the response.
    pub status_code: StatusCode,
    /// The headers read so far, but for `Set-Cookie`.
    pub headers: ResponseHeaderMap,
    /// The values of the `Set-Cookie` headers read so far, in order.
    pub cookies: Vec<String>,
}

/// The state of a response head after one more header: a `Set-Cookie` value goes after
/// the cookies read so far, any other header is set to its value.
pub open spec fn head_with_entry(
    state: (Seq<((nat, Seq<char>), Seq<char>)>, Seq<Seq<char>>),
    e: ((nat, Seq<char>), Seq<char>),
) -> (Seq<((nat, Seq<char>), Seq<char>)>, Seq<Seq<char>>) {
    if e.0 == ResponseHeader::SetCookie@ {
        (state.0, state.1.push(e.1))
    } else {
        (insert_entry::<ResponseHeader>(state.0, e.0, e.1), state.1)
    }
}

impl ResponseHead {
    /// Starts reading a response from its status line (see `status_line_spec`).
    pub fn start(bytes: &[u8]) -> (r: Result<ResponseHead, ResponseError>)
        ensures
            match status_line_spec(bytes@) {
                Ok((v, s)) => r matches Ok(h) && h.version@ == v && h.status_code == s
                    && h.headers@.len() == 0 && h.cookies@.len() == 0,
                Err(e) => r matches Err(x) && x == e,
            },
    {
        let (version, status_code) = parse_status_line(bytes)?;
        Ok(ResponseHead { version, status_code, headers: ResponseHeaderMap::new(), cookies: Vec::new() })
    }

    /// The texts of the `Set-Cookie` headers read so far.
    pub open spec fn cookie_texts(&self) -> Seq<Seq<char>> {
        self.cookies@.map_values(|s: String| s@)
    }

    /// Reads one head line: `Ok(true)` at the empty line that ends the head, `Ok(false)`
    /// after a header line, whose value goes after the cookies for `Set-Cookie` and is set
    /// as its header's value otherwise (see `head_with_entry`); `Err` when the line cannot
    /// be read (see `response_header_line_spec`).
    pub fn read_line(&mut self, bytes: &[u8]) -> (r: Result<bool, ResponseError>)
        ensures
            final(self).version == old(self).version,
            final(self).status_code == old(self).status_code,
            match response_header_line_spec(bytes@) {
                Err(e) => r == Err::<bool, ResponseError>(e) && final(self).headers@ == old(
                    self,
                ).headers@ && final(self).cookies == old(self).cookies,
                Ok(None) => r == Ok::<bool, ResponseError>(true) && final(self).headers@ == old(
                    self,
                ).headers@ && final(self).cookies == old(self).cookies,
                Ok(Some(e)) => r == Ok::<bool, ResponseError>(false) && (
                    final(self).headers@,
                    final(self).cookie_texts(),
                ) == head_with_entry((old(self).headers@, old(self).cookie_texts()), e),
            },
    {
        match parse_response_header_line(bytes) {
            Err(e) => Err(e),
            Ok(None) => Ok(true),
            Ok(Some((h, v))) => {
                if matches!(h, ResponseHeader::SetCookie) {
                    let ghost before = self.cookies@;
                    self.cookies.push(v);
                    assert(self.cookies@.map_values(|s: String| s@) =~= before.map_values(
                        |s: String| s@,
                    ).push(v@));
                } else {
                    assert(h@ != ResponseHeader::SetCookie@);
                    self.headers.insert(h, v);
                }
                Ok(false)
            },
        }
    }

    /// How the body is to be read (see `body_mode_spec`).
    pub fn body_mode(&self) -> (r: Result<BodyMode, ResponseError>)
        ensures
            r == body_mode_spec(self.headers@),
    {
        body_mode(&self.headers)
    }

    /// The response with a body read as its length says or as it was sent.
    pub fn into_response(self, body: Vec<u8>) -> (r: Response)
        ensures
            r.version == self.version,
            r.status_code == self.status_code,
            r.headers == self.headers,
            r.cookies == self.cookies,
            r.body == body,
    {
        Response {
            version: self.version,
            status_code: self.status_code,
            headers: self.headers,
            cookies: self.cookies,
            body,
        }
    }

    /// The response with a body that was read in chunks: the `Transfer-Encoding` header
    /// goes and `Content-Length` gives the body's length (see `finish_chunked`).
    pub fn into_unchunked_response(self, body: Vec<u8>) -> (r: Response)
        ensures
            r.version == self.version,
            r.status_code == self.status_code,
            r.headers@ == insert_entry::<ResponseHeader>(
                remove_entry::<ResponseHeader>(
                    self.headers@,
                    ResponseHeader::key_of(ResponseHeader::TransferEncoding@),
                ),
                ResponseHeader::ContentLength@,
                decimal(body@.len()),
            ),
            r.cookies == self.cookies,
            r.body == body,
    {
        let mut headers = self.headers;
        finish_chunked(&mut headers, body.len());
        Response { version: self.version, status_code: self.status_code, headers, cookies: self.cookies, body }
    }
}

/// A header line written for a response header reads back as that header and its value,
/// when the name holds no `:`, the value does not start with white space, and a custom
/// header does not bear the name of a named one.
pub proof fn lemma_response_header_line_roundtrip(header: ResponseHeader, value: Seq<char>)
    requires
        !header@.1.contains(':'),
        value.len() > 0 ==> !is_white_space(value[0]),
        header is Custom ==> response_header_index_of(header@.1) is None,
    ensures
        response_header_line_spec(written_header_line(header@.1, value)) == Ok::<
            Option<((nat, Seq<char>), Seq<char>)>,
            ResponseError,
        >(Some((header@, value))),
{
    lemma_header_line_roundtrip(header@.1, value);
    if !(header is Custom) {
        lemma_response_header_name_roundtrip(header@.0);
    }
}

/// The bytes of a status line as it is written: the status line and `\r\n`.
pub open spec fn written_status_line(version: Seq<char>, status: StatusCode) -> Seq<u8> {
    encode_utf8(status_line(version, status)) + seq![13u8, 10u8]
}

/// A written status line reads back as its version and status, when the version holds no
/// space.
pub proof fn lemma_status_line_roundtrip(version: Seq<char>, status: StatusCode)
    requires
        !version.contains(' '),
    ensures
        status_line_spec(written_status_line(version, status)) == Ok::<
            (Seq<char>, StatusCode),
            ResponseError,
        >((version, status)),
{
    let code = status.spec_code() as nat;
    let d = decimal(code);
    let reason = status.spec_reason();
    let crlf = seq!['\r', '\n'];
    let t = status_line(version, status) + crlf;
    lemma_encode_crlf();
    lemma_encode_utf8_concat(status_line(version, status), crlf);
    vstd::utf8::encode_utf8_decode_utf8(t);
    vstd::utf8::encode_utf8_valid_utf8(t);
    assert(written_status_line(version, status) == encode_utf8(t));
    let vlen = version.len() as int;
    assert forall|j: int| 0 <= j < vlen implies t[j] != ' ' by {
        assert(t[j] == version[j]);
        if version[j] == ' ' {
            assert(version.contains(' '));
        }
    }
    assert(t[vlen] == ' ');
    lemma_first_index_of_prefix(t, ' ', vlen);
    let rest = t.skip(vlen + 1);
    assert(rest =~= d + seq![' '] + reason + crlf);
    lemma_parse_decimal(code, 65535);
    let dlen = d.len() as int;
    assert forall|j: int| 0 <= j < dlen implies rest[j] != ' ' by {
        assert(rest[j] == d[j]);
        if d[j] == ' ' {
            assert(d.contains(' '));
        }
    }
    assert(rest[dlen] == ' ');
    lemma_first_index_of_prefix(rest, ' ', dlen);
    assert(t.take(vlen) =~= version);
    assert(rest.take(dlen) =~= d);
    lemma_status_code_roundtrip(status);
}

/// Header bytes written with the line ending first are the written header lines after
/// one line ending.
proof fn lemma_headers_bytes_lines(entries: Seq<((nat, Seq<char>), Seq<char>)>)
    ensures
        headers_bytes(entries) + seq![13u8, 10u8] == seq![13u8, 10u8] + written_header_lines(entries),
    decreases entries.len(),
{
    if entries.len() > 0 {
        let init = entries.drop_last();
        let e = entries.last();
        lemma_headers_bytes_lines(init);
        lemma_written_header_line(e.0.1, e.1);
        let crlf = seq![13u8, 10u8];
        let a = headers_bytes(init);
        let w = written_header_lines(init);
        let l = encode_utf8(e.0.1) + seq![58u8, 32u8] + encode_utf8(e.1);
        assert(header_line_bytes(e) =~= crlf + l);
        assert(headers_bytes(entries) == a + (crlf + l));
        assert(written_header_line(e.0.1, e.1) == l + crlf);
        assert(written_header_lines(entries) == w + (l + crlf));
        assert(a + (crlf + l) + crlf =~= (a + crlf) + (l + crlf));
        assert(crlf + w + (l + crlf) =~= crlf + (w + (l + crlf)));
    } else {
        assert(headers_bytes(entries) + seq![13u8, 10u8] =~= seq![13u8, 10u8] + written_header_lines(
            entries,
        ));
    }
}

/// The bytes written for a response are its written status line, the written line of
/// each header in order, then of each `Set-Cookie` header, an empty line, and the body
/// (followed by `\r\n` when it is not empty): each line reads back as what was written
/// (see the laws on written lines).
pub proof fn lemma_response_bytes_lines(
    version: Seq<char>,
    status: StatusCode,
    headers: Seq<((nat, Seq<char>), Seq<char>)>,
    cookies: Seq<Seq<char>>,
    body: Seq<u8>,
)
    ensures
        response_bytes(version, status, headers, cookies, body) == written_status_line(
            version,
            status,
        ) + written_header_lines(headers + cookie_entries(cookies)) + seq![13u8, 10u8]
            + if body.len() == 0 {
            Seq::<u8>::empty()
        } else {
            body + seq![13u8, 10u8]
        },
{
    let all = headers + cookie_entries(cookies);
    lemma_headers_bytes_lines(all);
    let b = if body.len() == 0 {
        Seq::<u8>::empty()
    } else {
        body + seq![13u8, 10u8]
    };
    let crlf = seq![13u8, 10u8];
    let st = encode_utf8(status_line(version, status));
    let h = headers_bytes(all);
    let w = written_header_lines(all);
    assert(seq![13u8, 10u8, 13u8, 10u8] =~= crlf + crlf);
    assert(response_bytes(version, status, headers, cookies, body) == st + h + seq![
        13u8,
        10u8,
        13u8,
        10u8,
    ] + b);
    assert(st + h + (crlf + crlf) + b =~= st + (h + crlf) + crlf + b);
    assert(st + (crlf + w) + crlf + b =~= (st + crlf) + w + crlf + b);
}

/// What reading head lines in turn gives, from the given headers and cookies: the headers
/// and cookies once the empty line is read, or the first error (also when the lines end
/// before the empty line).
pub open spec fn read_response_header_lines(
    state: (Seq<((nat, Seq<char>), Seq<char>)>, Seq<Seq<char>>),
    lines: Seq<Seq<u8>>,
) -> Result<(Seq<((nat, Seq<char>), Seq<char>)>, Seq<Seq<char>>), ResponseError>
    decreases lines.len(),
{
    if lines.len() == 0 {
        Err(ResponseError::Stream)
    } else {
        match response_header_line_spec(lines[0]) {
            Err(e) => Err(e),
            Ok(None) => Ok(state),
            Ok(Some(e)) => read_response_header_lines(head_with_entry(state, e), lines.drop_first()),
        }
    }
}

/// The headers and cookies after reading the given entries in turn from none.
pub open spec fn read_entries(entries: Seq<((nat, Seq<char>), Seq<char>)>) -> (
    Seq<((nat, Seq<char>), Seq<char>)>,
    Seq<Seq<char>>,
)
    decreases entries.len(),
{
    if entries.len() == 0 {
        (Seq::empty(), Seq::empty())
    } else {
        head_with_entry(read_entries(entries.drop_last()), entries.last())
    }
}

/// Whether a pair is the view of a response header that a response can hold and write: a
/// named header with its name, or a custom header whose name is not that of a named one.
pub open spec fn response_header_view(h: (nat, Seq<char>)) -> bool {
    ||| h.0 < RESPONSE_HEADER_COUNT && h.1 == crate::http::headers::response_header_name(h.0)
    ||| h.0 == RESPONSE_HEADER_COUNT && response_header_index_of(h.1) is None
}

/// Reading the written lines of the entries from the `k`-th on, then the empty line,
/// after the first `k` entries, reads the remaining entries in turn.
proof fn lemma_response_lines_rest(entries: Seq<((nat, Seq<char>), Seq<char>)>, k: int)
    requires
        0 <= k <= entries.len(),
        forall|i: int| 0 <= i < entries.len() ==> writable_entry(#[trigger] entries[i])
            && response_header_view(entries[i].0),
    ensures
        read_response_header_lines(
            read_entries(entries.take(k)),
            written_line_seq(entries).push(seq![13u8, 10u8]).skip(k),
        ) == Ok::<(Seq<((nat, Seq<char>), Seq<char>)>, Seq<Seq<char>>), ResponseError>(
            read_entries(entries),
        ),
    decreases entries.len() - k,
{
    let lines = written_line_seq(entries).push(seq![13u8, 10u8]);
    if k == entries.len() {
        assert(entries.take(k) =~= entries);
        assert(lines.skip(k)[0] == seq![13u8, 10u8]);
        lemma_end_line();
    } else {
        let e = entries[k];
        assert(lines.skip(k)[0] == written_header_line(e.0.1, e.1));
        assert(writable_entry(entries[k]) && response_header_view(entries[k].0));
        lemma_header_line_roundtrip(e.0.1, e.1);
        if e.0.0 < RESPONSE_HEADER_COUNT {
            lemma_response_header_name_roundtrip(e.0.0);
        }
        assert(response_header_from_spec(e.0.1) == e.0);
        assert(lines.skip(k).drop_first() =~= lines.skip(k + 1));
        assert(entries.take(k + 1).drop_last() =~= entries.take(k));
        lemma_response_lines_rest(entries, k + 1);
    }
}

/// Reading the entries of headers in the order of their keys, none of them `Set-Cookie`,
/// and then of `Set-Cookie` headers gives those headers and cookies back.
proof fn lemma_read_entries_head(
    headers: Seq<((nat, Seq<char>), Seq<char>)>,
    cookies: Seq<Seq<char>>,
    j: int,
)
    requires
        sorted_by_key::<ResponseHeader>(headers),
        forall|i: int| 0 <= i < headers.len() ==> (#[trigger] headers[i]).0 != ResponseHeader::SetCookie@,
        0 <= j <= cookies.len(),
    ensures
        read_entries(headers + cookie_entries(cookies.take(j))) == (headers, cookies.take(j)),
    decreases j,
{
    if j == 0 {
        assert(headers + cookie_entries(cookies.take(0)) =~= headers);
        lemma_read_entries_plain(headers, headers.len() as int);
        assert(headers.take(headers.len() as int) =~= headers);
        lemma_insert_all_sorted::<ResponseHeader>(headers);
        assert(cookies.take(0) =~= Seq::<Seq<char>>::empty());
    } else {
        lemma_read_entries_head(headers, cookies, j - 1);
        let all = headers + cookie_entries(cookies.take(j));
        assert(all.drop_last() =~= headers + cookie_entries(cookies.take(j - 1)));
        assert(all.last() == (ResponseHeader::SetCookie@, cookies[j - 1]));
        assert(cookies.take(j - 1).push(cookies[j - 1]) =~= cookies.take(j));
    }
}

/// Reading the first `k` of entries none of which is `Set-Cookie` sets their headers in
/// turn and reads no cookie.
proof fn lemma_read_entries_plain(headers: Seq<((nat, Seq<char>), Seq<char>)>, k: int)
    requires
        forall|i: int| 0 <= i < headers.len() ==> (#[trigger] headers[i]).0 != ResponseHeader::SetCookie@,
        0 <= k <= headers.len(),
    ensures
        read_entries(headers.take(k)) == (
            insert_all_from::<ResponseHeader>(Seq::empty(), headers.take(k)),
            Seq::<Seq<char>>::empty(),
        ),
    decreases k,
{
    if k == 0 {
        assert(headers.take(0) =~= Seq::<((nat, Seq<char>), Seq<char>)>::empty());
    } else {
        lemma_read_entries_plain(headers, k - 1);
        let t = headers.take(k);
        assert(t.drop_last() =~= headers.take(k - 1));
        assert(t.last() == headers[k - 1]);
        assert(headers.take(k - 1).push(headers[k - 1]) =~= t);
        lemma_insert_all_from_push::<ResponseHeader>(Seq::empty(), headers.take(k - 1), headers[k - 1]);
    }
}

/// Whether a response's headers and cookies can be written and read back: the headers are
/// in the order of their keys, each is a response header whose name holds no `:`, none is
/// `Set-Cookie`, and no value (of a header or a cookie) starts with white space.
pub open spec fn readable_head(
    headers: Seq<((nat, Seq<char>), Seq<char>)>,
    cookies: Seq<Seq<char>>,
) -> bool {
    &&& sorted_by_key::<ResponseHeader>(headers)
    &&& forall|i: int| 0 <= i < headers.len() ==> writable_entry(#[trigger] headers[i])
        && response_header_view(headers[i].0) && headers[i].0 != ResponseHeader::SetCookie@
    &&& forall|i: int| 0 <= i < cookies.len() ==> (#[trigger] cookies[i]).len() > 0
        ==> !is_white_space(cookies[i][0])
}

/// Reading the written header lines of a response's headers and cookies and then the
/// empty line gives the headers and cookies back (see `readable_head`).
pub proof fn lemma_response_head_roundtrip(
    headers: Seq<((nat, Seq<char>), Seq<char>)>,
    cookies: Seq<Seq<char>>,
)
    requires
        readable_head(headers, cookies),
    ensures
        read_response_header_lines(
            (Seq::empty(), Seq::empty()),
            written_line_seq(headers + cookie_entries(cookies)).push(seq![13u8, 10u8]),
        ) == Ok::<(Seq<((nat, Seq<char>), Seq<char>)>, Seq<Seq<char>>), ResponseError>(
            (headers, cookies),
        ),
{
    let all = headers + cookie_entries(cookies);
    let sc = ResponseHeader::SetCookie@;
    reveal_strlit("Set-Cookie");
    lemma_response_header_name_roundtrip(sc.0);
    assert forall|i: int| 0 <= i < all.len() implies writable_entry(#[trigger] all[i])
        && response_header_view(all[i].0) by {
        if i >= headers.len() {
            assert(all[i] == (sc, cookies[i - headers.len()]));
            assert(!sc.1.contains(':')) by {
                if sc.1.contains(':') {
                    let x = choose|x: int| 0 <= x < sc.1.len() && sc.1[x] == ':';
                    assert(sc.1[x] != ':');
                }
            }
        } else {
            assert(all[i] == headers[i]);
        }
    }
    lemma_response_lines_rest(all, 0);
    assert(all.take(0) =~= Seq::<((nat, Seq<char>), Seq<char>)>::empty());
    assert(written_line_seq(all).push(seq![13u8, 10u8]).skip(0) =~= written_line_seq(all).push(
        seq![13u8, 10u8],
    ));
    lemma_read_entries_head(headers, cookies, cookies.len() as int);
    assert(cookies.take(cookies.len() as int) =~= cookies);
}

/// A written response reads back as itself: its bytes are its written status line, the
/// written lines of its headers and cookies, an empty line and its body; the status line
/// reads back as its version and status, the header lines up to the empty line as its
/// headers and cookies, and the headers say to read as many body bytes as the body has.
/// This holds when the version holds no space, the headers and cookies can be written and
/// read back (see `readable_head`), `Content-Length` gives the body's length, and the body
/// is not chunked.
pub proof fn lemma_response_read_back(
    version: Seq<char>,
    status: StatusCode,
    headers: Seq<((nat, Seq<char>), Seq<char>)>,
    cookies: Seq<Seq<char>>,
    body: Seq<u8>,
)
    requires
        !version.contains(' '),
        readable_head(headers, cookies),
        lookup::<ResponseHeader>(headers, ResponseHeader::key_of(ResponseHeader::TransferEncoding@))
            != Some("chunked"@),
        lookup::<ResponseHeader>(headers, ResponseHeader::key_of(ResponseHeader::ContentLength@))
            == Some(decimal(body.len())),
        body.len() <= usize::MAX,
    ensures
        response_bytes(version, status, headers, cookies, body) == written_status_line(
            version,
            status,
        ) + written_line_seq(headers + cookie_entries(cookies)).flatten() + seq![13u8, 10u8]
            + if body.len() == 0 {
            Seq::<u8>::empty()
        } else {
            body + seq![13u8, 10u8]
        },
        status_line_spec(written_status_line(version, status)) == Ok::<
            (Seq<char>, StatusCode),
            ResponseError,
        >((version, status)),
        read_response_header_lines(
            (Seq::empty(), Seq::empty()),
            written_line_seq(headers + cookie_entries(cookies)).push(seq![13u8, 10u8]),
        ) == Ok::<(Seq<((nat, Seq<char>), Seq<char>)>, Seq<Seq<char>>), ResponseError>(
            (headers, cookies),
        ),
        body_mode_spec(headers) == Ok::<BodyMode, ResponseError>(BodyMode::Length(body.len() as usize)),
{
    lemma_response_bytes_lines(version, status, headers, cookies, body);
    lemma_written_lines_flatten(headers + cookie_entries(cookies));
    lemma_status_line_roundtrip(version, status);
    lemma_response_head_roundtrip(headers, cookies);
    lemma_parse_decimal(body.len(), usize::MAX as nat);
}

} // verus!
