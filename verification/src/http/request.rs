//! Parsing and writing HTTP requests.

use vstd::prelude::*;
use vstd::utf8::{decode_utf8, encode_utf8, valid_utf8};

use crate::http::header_map::{
    insert_all_from, insert_entry, lemma_insert_all_from_push, lemma_insert_all_sorted, lookup,
    sorted_by_key, HeaderKey, RequestHeaderMap,
};
use crate::http::headers::{
    lemma_request_header_name_roundtrip, request_header_from_spec, request_header_index_of,
    RequestHeader, REQUEST_HEADER_COUNT,
};
use crate::http::lines::{
    header_line_spec, lemma_encode_crlf, lemma_encode_utf8_concat,
    lemma_header_line_roundtrip, lemma_written_header_line, read_header_line, written_header_line,
    written_header_lines, HeaderLine, lemma_end_line, written_line_seq, writable_entry,
    lemma_written_lines_flatten,
};
use crate::http::method::{lemma_method_name_roundtrip, Method};
use crate::http::response::utf8_string;
use crate::text::{
    chars_of, extend_str, find_char, first_index_of, lemma_first_index_of_bounds, owned_string,
    parse_unsigned, parse_unsigned_str, remove_crlf, split_chars, split_spec, string_of_range,
    string_push, string_push_str, without_crlf, ascii_lower, is_white_space,
    lemma_first_index_of_prefix, lemma_remove_crlf_appended, lemma_split_join, lemma_split_single,
    decimal, lemma_parse_decimal,
};

verus! {

/// An error which occurred while reading a request.
#[derive(Clone, Copy, Debug, PartialEq, Eq, Structural)]
pub enum RequestError {
    /// The request could not be parsed due to invalid data.
    Request,
    /// The request could not be parsed due to an issue with the stream.
    Stream,
    /// The stream timed out while waiting for the request.
    Timeout,
    /// The client disconnected before sending a request.
    Disconnected,
}

/// Asserts that the condition is true, returning a `Result`.
pub fn safe_assert(condition: bool) -> (r: Result<(), RequestError>)
    ensures
        condition ==> r == Ok::<(), RequestError>(()),
        !condition ==> r == Err::<(), RequestError>(RequestError::Request),
{
    match condition {
        true => Ok(()),
        false => Err(RequestError::Request),
    }
}

/// The address a request came from, with the proxies it travelled through.
#[derive(Clone, Debug, PartialEq, Eq)]
pub struct Address {
    /// Original address of the request behind any proxies.
    pub origin_addr: String,
    /// The proxies that the request travelled through, from first to last.
    pub proxies: Vec<String>,
    /// The port of the request.
    pub port: u16,
}

impl Address {
    /// An address with no proxies.
    pub fn new(origin_addr: String, port: u16) -> (r: Address)
        ensures
            r.origin_addr == origin_addr,
            r.proxies@.len() == 0,
            r.port == port,
    {
        Address { origin_addr, proxies: Vec::new(), port }
    }

    /// The address as it is logged: the origin, followed by ` (proxied)` when the request
    /// came through proxies.
    pub fn to_string(&self) -> (r: String)
        ensures
            r@ == self.origin_addr@ + if self.proxies@.len() > 0 {
                " (proxied)"@
            } else {
                Seq::empty()
            },
    {
        let mut s = self.origin_addr.clone();
        if self.proxies.len() > 0 {
            string_push_str(&mut s, " (proxied)");
        } else {
            assert(s@ =~= self.origin_addr@ + Seq::<char>::empty());
        }
        s
    }

    /// The entries of the `X-Forwarded-For` header, split at commas, if the header is set.
    pub fn forwarded_for(headers: &RequestHeaderMap) -> (r: Option<Vec<String>>)
        ensures
            match lookup::<RequestHeader>(headers@, RequestHeader::key_of((24nat, "x-forwarded-for"@))) {
                Some(v) => r matches Some(parts) && parts@.map_values(|p: String| p@) == split_spec(v, ','),
                None => r is None,
            },
    {
        let header = RequestHeader::Custom { name: owned_string("x-forwarded-for") };
        match headers.get(&header) {
            Some(value) => Some(split_chars(value.as_str(), ',')),
            None => None,
        }
    }

    /// The address of a request that came through proxies, given the addresses listed in
    /// its `X-Forwarded-For` header that are valid, and the peer's address and port: the
    /// last listed address is the origin, the others and then the peer are the proxies.
    /// With no valid listed address, the peer is the origin.
    pub fn from_proxy_chain(forwarded: Vec<String>, peer_addr: String, port: u16) -> (r: Address)
        ensures
            forwarded@.len() == 0 ==> r.origin_addr == peer_addr && r.proxies@.len() == 0,
            forwarded@.len() > 0 ==> r.origin_addr == forwarded@.last() && r.proxies@
                == forwarded@.drop_last().push(peer_addr),
            r.port == port,
    {
        let mut proxies = forwarded;
        match proxies.pop() {
            None => Address { origin_addr: peer_addr, proxies, port },
            Some(origin) => {
                proxies.push(peer_addr);
                Address { origin_addr: origin, proxies, port }
            },
        }
    }
}

/// A request to the server.
#[derive(Clone, Debug)]
pub struct Request {
    /// The method used in making the request, e.g. "GET".
    pub method: Method,
    /// The URI to which the request was made.
    pub uri: String,
    /// The query string of the request.
    pub query: String,
    /// The HTTP version of the request.
    pub version: String,
    /// The headers included in the request.
    pub headers: RequestHeaderMap,
    /// The request body, if supplied.
    pub content: Option<Vec<u8>>,
    /// The address from which the request came.
    pub address: Address,
}

/// The parts of a request line.
#[derive(Clone, Debug)]
pub struct RequestLine {
    /// The method.
    pub method: Method,
    /// The target before any `?`.
    pub uri: String,
    /// The target after the first `?`, or empty.
    pub query: String,
    /// The version, with every `\r\n` removed.
    pub version: String,
}

/// The URI and query string of a request target: split at the first `?`.
pub open spec fn split_target(target: Seq<char>) -> (Seq<char>, Seq<char>) {
    match first_index_of(target, '?') {
        Some(k) => (target.take(k), target.skip(k + 1)),
        None => (target, Seq::empty()),
    }
}

/// How a request line reads: it must be valid UTF-8 with exactly two spaces, and the
/// part before the first space must name a method; the version is the part after the
/// second space with every `\r\n` removed.
pub open spec fn request_line_spec(bytes: Seq<u8>) -> Result<
    (Method, Seq<char>, Seq<char>, Seq<char>),
    RequestError,
> {
    if !valid_utf8(bytes) {
        Err(RequestError::Request)
    } else {
        let parts = split_spec(decode_utf8(bytes), ' ');
        if parts.len() != 3 {
            Err(RequestError::Request)
        } else {
            match Method::spec_from_name(parts[0]) {
                None => Err(RequestError::Request),
                Some(m) => {
                    let (uri, query) = split_target(parts[1]);
                    Ok((m, uri, query, remove_crlf(parts[2])))
                },
            }
        }
    }
}

/// Reads the first line of a request.
pub fn parse_request_line(bytes: &[u8]) -> (r: Result<RequestLine, RequestError>)
    ensures
        match request_line_spec(bytes@) {
            Ok((m, uri, query, version)) => r matches Ok(l) && l.method == m && l.uri@ == uri
                && l.query@ == query && l.version@ == version,
            Err(e) => r matches Err(x) && x == e,
        },
{
    let text = match utf8_string(bytes) {
        Some(t) => t,
        None => return Err(RequestError::Request),
    };
    let parts = split_chars(text.as_str(), ' ');
    assert(parts@.map_values(|p: String| p@).len() == parts@.len());
    safe_assert(parts.len() == 3)?;
    assert(parts@[0]@ == parts@.map_values(|p: String| p@)[0]);
    assert(parts@[1]@ == parts@.map_values(|p: String| p@)[1]);
    assert(parts@[2]@ == parts@.map_values(|p: String| p@)[2]);
    let method = Method::from_name(parts[0].as_str())?;
    let version = without_crlf(parts[2].as_str());
    let target = chars_of(parts[1].as_str());
    let (uri, query) = match find_char(&target, '?') {
        Some(k) => {
            proof {
                lemma_first_index_of_bounds(target@, '?');
            }
            let u = string_of_range(&target, 0, k);
            let q = string_of_range(&target, k + 1, target.len());
            assert(target@.subrange(0, k as int) =~= target@.take(k as int));
            assert(target@.subrange(k + 1, target@.len() as int) =~= target@.skip(k + 1));
            (u, q)
        },
        None => (string_of_range(&target, 0, target.len()), String::new()),
    };
    assert(target@.subrange(0, target@.len() as int) =~= target@);
    Ok(RequestLine { method, uri, query, version })
}

/// How a head line of a request reads: `Err` when it cannot be read, `None` for the end
/// line, otherwise the header it names (read case-insensitively) and its value.
pub open spec fn request_header_line_spec(bytes: Seq<u8>) -> Result<
    Option<((nat, Seq<char>), Seq<char>)>,
    RequestError,
> {
    match header_line_spec(bytes) {
        None => Err(RequestError::Request),
        Some(None) => Ok(None),
        Some(Some((name, value))) => Ok(Some((request_header_from_spec(name), value))),
    }
}

/// Reads one head line of a request.
pub fn parse_request_header_line(bytes: &[u8]) -> (r: Result<Option<(RequestHeader, String)>, RequestError>)
    ensures
        match request_header_line_spec(bytes@) {
            Err(e) => r matches Err(x) && x == e,
            Ok(None) => r matches Ok(None),
            Ok(Some((h, v))) => r matches Ok(Some((x, y))) && x@ == h && y@ == v,
        },
{
    match read_header_line(bytes) {
        None => Err(RequestError::Request),
        Some(HeaderLine::End) => Ok(None),
        Some(HeaderLine::Field(name, value)) => Ok(Some((RequestHeader::from_name(name.as_str()), value))),
    }
}

/// The length of the body that a request's headers announce: none without a
/// `Content-Length` header, an error when its value is not a number that fits a `usize`.
pub open spec fn content_length_spec(headers: Seq<((nat, Seq<char>), Seq<char>)>) -> Result<
    Option<nat>,
    RequestError,
> {
    match lookup::<RequestHeader>(headers, RequestHeader::key_of(RequestHeader::ContentLength@)) {
        None => Ok(None),
        Some(v) => match parse_unsigned(v, 10, usize::MAX as nat) {
            Some(n) => Ok(Some(n)),
            None => Err(RequestError::Request),
        },
    }
}

/// The length of the body that a request's headers announce.
pub fn content_length(headers: &RequestHeaderMap) -> (r: Result<Option<usize>, RequestError>)
    ensures
        match content_length_spec(headers@) {
            Ok(Some(n)) => r == Ok::<Option<usize>, RequestError>(Some(n as usize)),
            Ok(None) => r == Ok::<Option<usize>, RequestError>(None),
            Err(e) => r == Err::<Option<usize>, RequestError>(e),
        },
{
    match headers.get(&RequestHeader::ContentLength) {
        None => Ok(None),
        Some(v) => match parse_unsigned_str(v.as_str(), 10, usize::MAX as u64) {
            Some(n) => Ok(Some(n as usize)),
            None => Err(RequestError::Request),
        },
    }
}

/// The request line as written out: method, target (with `?` and the query string when
/// the query string is not empty) and version, separated by spaces.
pub open spec fn request_start_line(m: Method, uri: Seq<char>, query: Seq<char>, version: Seq<char>) -> Seq<char> {
    if query.len() == 0 {
        m.spec_name() + seq![' '] + uri + seq![' '] + version
    } else {
        m.spec_name() + seq![' '] + uri + seq!['?'] + query + seq![' '] + version
    }
}

/// The header lines of a request, each `name: value`, separated by `\r\n`.
pub open spec fn request_headers_text(entries: Seq<((nat, Seq<char>), Seq<char>)>) -> Seq<u8>
    decreases entries.len(),
{
    if entries.len() == 0 {
        Seq::empty()
    } else {
        let line = encode_utf8(entries.last().0.1) + seq![58u8, 32u8] + encode_utf8(entries.last().1);
        if entries.len() == 1 {
            line
        } else {
            request_headers_text(entries.drop_last()) + seq![13u8, 10u8] + line
        }
    }
}

/// The bytes sent for a request: the request line, `\r\n`, the header lines, an empty
/// line, and the content if there is any.
pub open spec fn request_bytes(
    m: Method,
    uri: Seq<char>,
    query: Seq<char>,
    version: Seq<char>,
    headers: Seq<((nat, Seq<char>), Seq<char>)>,
    content: Option<Seq<u8>>,
) -> Seq<u8> {
    encode_utf8(request_start_line(m, uri, query, version)) + seq![13u8, 10u8] + request_headers_text(
        headers,
    ) + seq![13u8, 10u8, 13u8, 10u8] + match content {
        Some(c) => c,
        None => Seq::empty(),
    }
}

impl Request {
    /// Writes the request out as the bytes sent to a server.
    pub fn into_bytes(self) -> (r: Vec<u8>)
        ensures
            r@ == request_bytes(
                self.method,
                self.uri@,
                self.query@,
                self.version@,
                self.headers@,
                match self.content {
                    Some(c) => Some(c@),
                    None => None,
                },
            ),
    {
        let mut line = String::new();
        string_push_str(&mut line, self.method.name());
        string_push(&mut line, ' ');
        string_push_str(&mut line, self.uri.as_str());
        if !self.query.as_str().is_empty() {
            string_push(&mut line, '?');
            string_push_str(&mut line, self.query.as_str());
        }
        string_push(&mut line, ' ');
        string_push_str(&mut line, self.version.as_str());
        assert(line@ =~= request_start_line(self.method, self.uri@, self.query@, self.version@));
        let mut bytes: Vec<u8> = Vec::new();
        extend_str(&mut bytes, line.as_str());
        bytes.push(13);
        bytes.push(10);
        let ghost start = bytes@;
        let n = self.headers.len();
        let mut i: usize = 0;
        assert(self.headers@.take(0) =~= Seq::<((nat, Seq<char>), Seq<char>)>::empty());
        assert(bytes@ =~= start + request_headers_text(self.headers@.take(0)));
        while i < n
            invariant
                n == self.headers@.len(),
                i <= n,
                bytes@ == start + request_headers_text(self.headers@.take(i as int)),
            decreases n - i,
        {
            let (header, value) = self.headers.entry_at(i);
            let name = header.header_name();
            let ghost before = bytes@;
            if i > 0 {
                bytes.push(13);
                bytes.push(10);
            }
            extend_str(&mut bytes, name.as_str());
            bytes.push(58);
            bytes.push(32);
            extend_str(&mut bytes, value.as_str());
            proof {
                let t = self.headers@.take(i + 1);
                assert(t.drop_last() =~= self.headers@.take(i as int));
                assert(t.last() == self.headers@[i as int]);
                let l = encode_utf8(self.headers@[i as int].0.1) + seq![58u8, 32u8] + encode_utf8(
                    self.headers@[i as int].1,
                );
                if i == 0 {
                    assert(bytes@ =~= before + l);
                    assert(request_headers_text(self.headers@.take(0)) =~= Seq::<u8>::empty());
                } else {
                    assert(bytes@ =~= before + seq![13u8, 10u8] + l);
                }
            }
            i = i + 1;
        }
        assert(self.headers@.take(n as int) =~= self.headers@);
        bytes.push(13);
        bytes.push(10);
        bytes.push(13);
        bytes.push(10);
        let ghost head = bytes@;
        if let Some(content) = self.content {
            crate::text::extend_bytes(&mut bytes, content.as_slice());
        }
        assert(bytes@ =~= request_bytes(
            self.method,
            self.uri@,
            self.query@,
            self.version@,
            self.headers@,
            match self.content {
                Some(c) => Some(c@),
                None => None,
            },
        ));
        bytes
    }
}

/// The head of a request while it is being read: its request line and the headers read
/// so far.
#[derive(Clone, Debug)]
pub struct RequestHead {
    /// The request line.
    pub line: RequestLine,
    /// The headers read so far.
    pub headers: RequestHeaderMap,
}

impl RequestHead {
    /// Starts reading a request from its first line (see `request_line_spec`).
    pub fn start(bytes: &[u8]) -> (r: Result<RequestHead, RequestError>)
        ensures
            match request_line_spec(bytes@) {
                Ok((m, uri, query, version)) => r matches Ok(h) && h.line.method == m
                    && h.line.uri@ == uri && h.line.query@ == query && h.line.version@ == version
                    && h.headers@.len() == 0,
                Err(e) => r matches Err(x) && x == e,
            },
    {
        let line = parse_request_line(bytes)?;
        Ok(RequestHead { line, headers: RequestHeaderMap::new() })
    }

    /// Reads one head line: `Ok(true)` at the empty line that ends the head, `Ok(false)`
    /// after a header line, whose header is set to its value; `Err` when the line cannot
    /// be read (see `request_header_line_spec`).
    pub fn read_line(&mut self, bytes: &[u8]) -> (r: Result<bool, RequestError>)
        ensures
            final(self).line == old(self).line,
            match request_header_line_spec(bytes@) {
                Err(e) => r == Err::<bool, RequestError>(e) && final(self).headers@ == old(
                    self,
                ).headers@,
                Ok(None) => r == Ok::<bool, RequestError>(true) && final(self).headers@ == old(
                    self,
                ).headers@,
                Ok(Some((h, v))) => r == Ok::<bool, RequestError>(false) && final(self).headers@
                    == insert_entry::<RequestHeader>(old(self).headers@, h, v),
            },
    {
        match parse_request_header_line(bytes) {
            Err(e) => Err(e),
            Ok(None) => Ok(true),
            Ok(Some((h, v))) => {
                self.headers.insert(h, v);
                Ok(false)
            },
        }
    }

    /// The length of the body that the headers announce (see `content_length_spec`).
    pub fn body_length(&self) -> (r: Result<Option<usize>, RequestError>)
        ensures
            match content_length_spec(self.headers@) {
                Ok(Some(n)) => r == Ok::<Option<usize>, RequestError>(Some(n as usize)),
                Ok(None) => r == Ok::<Option<usize>, RequestError>(None),
                Err(e) => r == Err::<Option<usize>, RequestError>(e),
            },
    {
        content_length(&self.headers)
    }

    /// The request, once its body (if any) has been read and its address worked out.
    pub fn into_request(self, content: Option<Vec<u8>>, address: Address) -> (r: Request)
        ensures
            r.method == self.line.method,
            r.uri == self.line.uri,
            r.query == self.line.query,
            r.version == self.line.version,
            r.headers == self.headers,
            r.content == content,
            r.address == address,
    {
        Request {
            method: self.line.method,
            uri: self.line.uri,
            query: self.line.query,
            version: self.line.version,
            headers: self.headers,
            content,
            address,
        }
    }
}

/// A header line written for a request header reads back as that header and its value,
/// when the name holds no `:`, the value does not start with white space, and a custom
/// header has a lower-case name that is not the name of a named one.
pub proof fn lemma_request_header_line_roundtrip(header: RequestHeader, value: Seq<char>)
    requires
        !header@.1.contains(':'),
        value.len() > 0 ==> !is_white_space(value[0]),
        header is Custom ==> ascii_lower(header@.1) == header@.1 && request_header_index_of(
            header@.1,
        ) is None,
    ensures
        request_header_line_spec(written_header_line(header@.1, value)) == Ok::<
            Option<((nat, Seq<char>), Seq<char>)>,
            RequestError,
        >(Some((header@, value))),
{
    lemma_header_line_roundtrip(header@.1, value);
    if !(header is Custom) {
        lemma_request_header_name_roundtrip(header@.0);
    }
}

/// The bytes of a request line as it is written: the line and `\r\n`.
pub open spec fn written_request_line(m: Method, uri: Seq<char>, query: Seq<char>, version: Seq<char>) -> Seq<u8> {
    encode_utf8(request_start_line(m, uri, query, version)) + seq![13u8, 10u8]
}

/// A written request line reads back as its method, URI, query string and version, when
/// the URI holds no space and no `?`, the query string no space, and the version no space
/// and no `\r`.
pub proof fn lemma_request_line_roundtrip(m: Method, uri: Seq<char>, query: Seq<char>, version: Seq<char>)
    requires
        !uri.contains(' '),
        !uri.contains('?'),
        !query.contains(' '),
        !version.contains(' '),
        !version.contains('\r'),
    ensures
        request_line_spec(written_request_line(m, uri, query, version)) == Ok::<
            (Method, Seq<char>, Seq<char>, Seq<char>),
            RequestError,
        >((m, uri, query, version)),
{
    let crlf = seq!['\r', '\n'];
    let name = m.spec_name();
    let target = if query.len() == 0 {
        uri
    } else {
        uri + seq!['?'] + query
    };
    let tail = version + crlf;
    let t = request_start_line(m, uri, query, version) + crlf;
    assert(t =~= name + seq![' '] + (target + seq![' '] + tail));
    lemma_encode_crlf();
    lemma_encode_utf8_concat(request_start_line(m, uri, query, version), crlf);
    vstd::utf8::encode_utf8_decode_utf8(t);
    vstd::utf8::encode_utf8_valid_utf8(t);
    assert(written_request_line(m, uri, query, version) == encode_utf8(t));
    lemma_method_name_roundtrip(m);
    assert(!target.contains(' ')) by {
        if target.contains(' ') {
            let i = choose|i: int| 0 <= i < target.len() && target[i] == ' ';
            if i < uri.len() {
                assert(uri[i] == ' ');
            } else if i > uri.len() {
                assert(query[i - uri.len() - 1] == ' ');
            }
        }
    }
    assert(!tail.contains(' ')) by {
        if tail.contains(' ') {
            let i = choose|i: int| 0 <= i < tail.len() && tail[i] == ' ';
            if i < version.len() {
                assert(version[i] == ' ');
            }
        }
    }
    lemma_split_join(name, target + seq![' '] + tail, ' ');
    lemma_split_join(target, tail, ' ');
    lemma_split_single(name, ' ');
    lemma_split_single(target, ' ');
    lemma_split_single(tail, ' ');
    assert(split_spec(decode_utf8(encode_utf8(t)), ' ') =~= seq![name, target, tail]);
    assert forall|j: int| 0 <= j < uri.len() implies target[j] != '?' by {
        assert(target[j] == uri[j]);
        if uri[j] == '?' {
            assert(uri.contains('?'));
        }
    }
    if query.len() == 0 {
        lemma_first_index_of_prefix(target, '?', uri.len() as int);
        assert(query =~= Seq::<char>::empty());
        assert(split_target(target) == (uri, query));
    } else {
        lemma_first_index_of_prefix(target, '?', uri.len() as int);
        assert(target.take(uri.len() as int) =~= uri);
        assert(target.skip(uri.len() as int + 1) =~= query);
    }
    lemma_remove_crlf_appended(version);
    let parts = split_spec(decode_utf8(written_request_line(m, uri, query, version)), ' ');
    assert(parts.len() == 3 && parts[0] == name && parts[1] == target && parts[2] == tail);
    assert(split_target(parts[1]) == (uri, query));
}

/// The header lines of a request, joined by line endings, are the written header lines
/// without the last line ending.
proof fn lemma_request_headers_lines(entries: Seq<((nat, Seq<char>), Seq<char>)>)
    requires
        entries.len() > 0,
    ensures
        request_headers_text(entries) + seq![13u8, 10u8] == written_header_lines(entries),
    decreases entries.len(),
{
    let crlf = seq![13u8, 10u8];
    let init = entries.drop_last();
    let e = entries.last();
    lemma_written_header_line(e.0.1, e.1);
    let l = encode_utf8(e.0.1) + seq![58u8, 32u8] + encode_utf8(e.1);
    assert(written_header_line(e.0.1, e.1) == l + crlf);
    if entries.len() == 1 {
        assert(written_header_lines(init) =~= Seq::<u8>::empty());
        assert(written_header_lines(entries) =~= l + crlf);
    } else {
        lemma_request_headers_lines(init);
        let t = request_headers_text(init);
        assert(request_headers_text(entries) == t + crlf + l);
        assert(t + crlf + l + crlf =~= (t + crlf) + (l + crlf));
    }
}

/// The bytes written for a request with headers are its written request line, the written
/// line of each header in order, an empty line, and the content if there is any: each
/// line reads back as what was written (see the laws on written lines).
pub proof fn lemma_request_bytes_lines(
    m: Method,
    uri: Seq<char>,
    query: Seq<char>,
    version: Seq<char>,
    headers: Seq<((nat, Seq<char>), Seq<char>)>,
    content: Option<Seq<u8>>,
)
    requires
        headers.len() > 0,
    ensures
        request_bytes(m, uri, query, version, headers, content) == written_request_line(
            m,
            uri,
            query,
            version,
        ) + written_header_lines(headers) + seq![13u8, 10u8] + match content {
            Some(c) => c,
            None => Seq::empty(),
        },
{
    lemma_request_headers_lines(headers);
    let crlf = seq![13u8, 10u8];
    let c = match content {
        Some(c) => c,
        None => Seq::<u8>::empty(),
    };
    let st = encode_utf8(request_start_line(m, uri, query, version));
    let h = request_headers_text(headers);
    assert(seq![13u8, 10u8, 13u8, 10u8] =~= crlf + crlf);
    assert(request_bytes(m, uri, query, version, headers, content) == st + crlf + h + seq![
        13u8,
        10u8,
        13u8,
        10u8,
    ] + c);
    assert(st + crlf + h + (crlf + crlf) + c =~= (st + crlf) + (h + crlf) + crlf + c);
}

/// What reading head lines in turn gives, from the given headers: the headers once the
/// empty line is read, or the first error (also when the lines end before the empty line).
pub open spec fn read_request_header_lines(
    headers: Seq<((nat, Seq<char>), Seq<char>)>,
    lines: Seq<Seq<u8>>,
) -> Result<Seq<((nat, Seq<char>), Seq<char>)>, RequestError>
    decreases lines.len(),
{
    if lines.len() == 0 {
        Err(RequestError::Stream)
    } else {
        match request_header_line_spec(lines[0]) {
            Err(e) => Err(e),
            Ok(None) => Ok(headers),
            Ok(Some((h, v))) => read_request_header_lines(
                insert_entry::<RequestHeader>(headers, h, v),
                lines.drop_first(),
            ),
        }
    }
}

/// Whether a pair is the view of a request header that a request can hold and write: a
/// named header with its name, or a custom header with a lower-case name that is not that
/// of a named one.
pub open spec fn request_header_view(h: (nat, Seq<char>)) -> bool {
    ||| h.0 < REQUEST_HEADER_COUNT && h.1 == crate::http::headers::request_header_name(h.0)
    ||| h.0 == REQUEST_HEADER_COUNT && ascii_lower(h.1) == h.1 && request_header_index_of(h.1) is None
}

/// Reading the written header lines of a request's headers and then the empty line gives
/// the headers back, when they are in the order of their keys and each is a request header
/// that can be written and read back.
pub proof fn lemma_request_head_roundtrip(headers: Seq<((nat, Seq<char>), Seq<char>)>)
    requires
        sorted_by_key::<RequestHeader>(headers),
        forall|i: int| 0 <= i < headers.len() ==> writable_entry(#[trigger] headers[i])
            && request_header_view(headers[i].0),
    ensures
        read_request_header_lines(
            Seq::empty(),
            written_line_seq(headers).push(seq![13u8, 10u8]),
        ) == Ok::<Seq<((nat, Seq<char>), Seq<char>)>, RequestError>(headers),
{
    lemma_request_lines_rest(headers, 0);
    lemma_insert_all_sorted::<RequestHeader>(headers);
    assert(headers.take(0) =~= Seq::<((nat, Seq<char>), Seq<char>)>::empty());
    assert(written_line_seq(headers).push(seq![13u8, 10u8]).skip(0) =~= written_line_seq(headers).push(
        seq![13u8, 10u8],
    ));
}

/// Reading the written lines of the headers from the `k`-th on, then the empty line,
/// from the first `k` headers, sets the remaining headers in turn.
proof fn lemma_request_lines_rest(headers: Seq<((nat, Seq<char>), Seq<char>)>, k: int)
    requires
        0 <= k <= headers.len(),
        forall|i: int| 0 <= i < headers.len() ==> writable_entry(#[trigger] headers[i])
            && request_header_view(headers[i].0),
    ensures
        read_request_header_lines(
            insert_all_from::<RequestHeader>(Seq::empty(), headers.take(k)),
            written_line_seq(headers).push(seq![13u8, 10u8]).skip(k),
        ) == Ok::<Seq<((nat, Seq<char>), Seq<char>)>, RequestError>(
            insert_all_from::<RequestHeader>(Seq::empty(), headers),
        ),
    decreases headers.len() - k,
{
    let lines = written_line_seq(headers).push(seq![13u8, 10u8]);
    if k == headers.len() {
        assert(headers.take(k) =~= headers);
        assert(lines.skip(k)[0] == seq![13u8, 10u8]);
        lemma_end_line();
    } else {
        let e = headers[k];
        assert(lines.skip(k)[0] == written_header_line(e.0.1, e.1));
        assert(writable_entry(headers[k]) && request_header_view(headers[k].0));
        lemma_header_line_roundtrip(e.0.1, e.1);
        if e.0.0 < REQUEST_HEADER_COUNT {
            lemma_request_header_name_roundtrip(e.0.0);
        }
        assert(request_header_from_spec(e.0.1) == e.0);
        assert(lines.skip(k).drop_first() =~= lines.skip(k + 1));
        lemma_insert_all_from_push::<RequestHeader>(Seq::empty(), headers.take(k), e);
        assert(headers.take(k).push(e) =~= headers.take(k + 1));
        lemma_request_lines_rest(headers, k + 1);
    }
}

/// A written request reads back as itself: its bytes are its written request line, the
/// written lines of its headers, an empty line and its content; the request line reads
/// back as its method, URI, query string and version, the header lines up to the empty
/// line as its headers, and the headers announce as many content bytes as it has. This
/// holds when the request line can be read back (see `lemma_request_line_roundtrip`), the
/// headers are in the order of their keys and can each be written and read back, and
/// `Content-Length` gives the content's length.
pub proof fn lemma_request_read_back(
    m: Method,
    uri: Seq<char>,
    query: Seq<char>,
    version: Seq<char>,
    headers: Seq<((nat, Seq<char>), Seq<char>)>,
    content: Seq<u8>,
)
    requires
        !uri.contains(' '),
        !uri.contains('?'),
        !query.contains(' '),
        !version.contains(' '),
        !version.contains('\r'),
        sorted_by_key::<RequestHeader>(headers),
        forall|i: int| 0 <= i < headers.len() ==> writable_entry(#[trigger] headers[i])
            && request_header_view(headers[i].0),
        lookup::<RequestHeader>(headers, RequestHeader::key_of(RequestHeader::ContentLength@))
            == Some(decimal(content.len())),
        content.len() <= usize::MAX,
    ensures
        request_bytes(m, uri, query, version, headers, Some(content)) == written_request_line(
            m,
            uri,
            query,
            version,
        ) + written_line_seq(headers).flatten() + seq![13u8, 10u8] + content,
        request_line_spec(written_request_line(m, uri, query, version)) == Ok::<
            (Method, Seq<char>, Seq<char>, Seq<char>),
            RequestError,
        >((m, uri, query, version)),
        read_request_header_lines(
            Seq::empty(),
            written_line_seq(headers).push(seq![13u8, 10u8]),
        ) == Ok::<Seq<((nat, Seq<char>), Seq<char>)>, RequestError>(headers),
        content_length_spec(headers) == Ok::<Option<nat>, RequestError>(Some(content.len())),
{
    assert(headers.len() > 0) by {
        if headers.len() == 0 {
            assert(lookup::<RequestHeader>(headers, RequestHeader::key_of(RequestHeader::ContentLength@)) is None);
        }
    }
    lemma_request_bytes_lines(m, uri, query, version, headers, Some(content));
    lemma_written_lines_flatten(headers);
    lemma_request_line_roundtrip(m, uri, query, version);
    lemma_request_head_roundtrip(headers);
    lemma_parse_decimal(content.len(), usize::MAX as nat);
}

} // verus!
