//! PHP through FastCGI: which requests go to the interpreter, the parameters sent with
//! them, and how the interpreter's output becomes a response.

use vstd::prelude::*;
use vstd::utf8::{decode_utf8, encode_utf8, valid_utf8};

use crate::fcgi::{
    pairs_bytes, pairs_view, request_records, FcgiRecord, FcgiRequest, FcgiType, Params, RecordFields,
};
use crate::hot_reload::{first_occurrence, first_occurrence_from, lemma_first_occurrence_from};
use crate::http::header_map::{insert_entry, ResponseHeaderMap};
use crate::http::headers::{response_header_from_spec, RequestHeader, ResponseHeader};
use crate::http::method::Method;
use crate::http::request::Request;
use crate::http::response::{utf8_string, Response};
use crate::http::status::{spec_status_from_code, StatusCode};
use crate::server::request_header_value;
use crate::text::{
    chars_of, decimal, decimal_string, ends_with, extend_bytes, find_char, first_index_of,
    has_suffix, lemma_first_index_of_bounds, lemma_split_nonempty, owned_string, parse_unsigned,
    parse_unsigned_str, split_chars, split_spec, str_eq, string_of_range, string_push,
    string_push_str, trim_end, trim_end_spec, trim_start_index, trim_start_spec,
};

verus! {

/// Whether the PHP plugin looks at a request for this URI: one that names a `.php` file,
/// ends in `/`, or is empty.
pub open spec fn php_uri(uri: Seq<char>) -> bool {
    has_suffix(uri, ".php"@) || has_suffix(uri, "/"@) || uri.len() == 0
}

/// Whether the PHP plugin looks at a request for this URI (see `php_uri`).
pub fn php_handles_uri(uri: &str) -> (r: bool)
    ensures
        r == php_uri(uri@),
{
    ends_with(uri, ".php") || ends_with(uri, "/") || uri.is_empty()
}

/// The parameter for a forwarded request header, when the request has it.
pub open spec fn forwarded_param(
    headers: Seq<((nat, Seq<char>), Seq<char>)>,
    header: RequestHeader,
    name: Seq<char>,
) -> Seq<(Seq<char>, Seq<char>)> {
    match request_header_value(headers, header) {
        Some(v) => seq![(name, v)],
        None => Seq::empty(),
    }
}

/// The parameters sent to the interpreter for a request of a script: the CGI variables,
/// then `HTTP_HOST`, `CONTENT_TYPE`, `HTTP_COOKIE`, `HTTP_USER_AGENT` and
/// `HTTP_AUTHORIZATION` for the request headers it has.
pub open spec fn php_params_spec(
    method: Method,
    uri: Seq<char>,
    query: Seq<char>,
    headers: Seq<((nat, Seq<char>), Seq<char>)>,
    content_length: nat,
    file_name: Seq<char>,
    directory: Seq<char>,
) -> Seq<(Seq<char>, Seq<char>)> {
    seq![
        ("GATEWAY_INTERFACE"@, "FastCGI/1.0"@),
        ("REQUEST_METHOD"@, method.spec_name()),
        ("REQUEST_URI"@, seq!['/'] + uri),
        ("SCRIPT_NAME"@, seq!['/'] + uri),
        ("SCRIPT_FILENAME"@, file_name),
        ("QUERY_STRING"@, query),
        ("SERVER_SOFTWARE"@, "Humphrey"@),
        ("REMOTE_ADDR"@, "127.0.0.1"@),
        ("SERVER_NAME"@, "localhost"@),
        ("SERVER_PORT"@, "80"@),
        ("SERVER_PROTOCOL"@, "HTTP/1.1"@),
        ("PHP_SELF"@, seq!['/'] + uri),
        ("DOCUMENT_ROOT"@, directory),
        ("CONTENT_LENGTH"@, decimal(content_length)),
    ] + forwarded_param(headers, RequestHeader::Host, "HTTP_HOST"@) + forwarded_param(
        headers,
        RequestHeader::ContentType,
        "CONTENT_TYPE"@,
    ) + forwarded_param(headers, RequestHeader::Cookie, "HTTP_COOKIE"@) + forwarded_param(
        headers,
        RequestHeader::UserAgent,
        "HTTP_USER_AGENT"@,
    ) + forwarded_param(headers, RequestHeader::Authorization, "HTTP_AUTHORIZATION"@)
}

/// The length of a request's body, 0 when it has none.
pub open spec fn content_len(content: Option<Vec<u8>>) -> nat {
    match content {
        Some(c) => c@.len(),
        None => 0,
    }
}

/// Appends a parameter.
fn push_param(params: &mut Vec<(String, String)>, name: &str, value: String)
    ensures
        pairs_view(final(params)@) == pairs_view(old(params)@).push((name@, value@)),
{
    params.push((owned_string(name), value));
    assert(pairs_view(final(params)@) =~= pairs_view(old(params)@).push((name@, value@)));
}

/// Appends the parameter of a forwarded request header, when the request has it.
fn push_forwarded(params: &mut Vec<(String, String)>, request: &Request, header: RequestHeader, name: &str)
    ensures
        pairs_view(final(params)@) == pairs_view(old(params)@) + forwarded_param(
            request.headers@,
            header,
            name@,
        ),
{
    match request.headers.get(&header) {
        Some(v) => push_param(params, name, v.clone()),
        None => {},
    }
    assert(pairs_view(final(params)@) =~= pairs_view(old(params)@) + forwarded_param(
        request.headers@,
        header,
        name@,
    ));
}

/// A text that is a slash followed by the given text.
fn slash_then(s: &str) -> (r: String)
    ensures
        r@ == seq!['/'] + s@,
{
    let mut r = String::new();
    string_push(&mut r, '/');
    string_push_str(&mut r, s);
    assert(r@ =~= seq!['/'] + s@);
    r
}

/// The parameters sent to the interpreter for a request of the script `file_name` in the
/// served `directory` (see `php_params_spec`).
pub fn php_params(request: &Request, file_name: &str, directory: &str) -> (r: Vec<(String, String)>)
    ensures
        pairs_view(r@) == php_params_spec(
            request.method,
            request.uri@,
            request.query@,
            request.headers@,
            content_len(request.content),
            file_name@,
            directory@,
        ),
{
    let mut params: Vec<(String, String)> = Vec::new();
    let length: usize = match &request.content {
        Some(c) => c.len(),
        None => 0,
    };
    push_param(&mut params, "GATEWAY_INTERFACE", owned_string("FastCGI/1.0"));
    push_param(&mut params, "REQUEST_METHOD", owned_string(request.method.name()));
    push_param(&mut params, "REQUEST_URI", slash_then(request.uri.as_str()));
    push_param(&mut params, "SCRIPT_NAME", slash_then(request.uri.as_str()));
    push_param(&mut params, "SCRIPT_FILENAME", owned_string(file_name));
    push_param(&mut params, "QUERY_STRING", request.query.clone());
    push_param(&mut params, "SERVER_SOFTWARE", owned_string("Humphrey"));
    push_param(&mut params, "REMOTE_ADDR", owned_string("127.0.0.1"));
    push_param(&mut params, "SERVER_NAME", owned_string("localhost"));
    push_param(&mut params, "SERVER_PORT", owned_string("80"));
    push_param(&mut params, "SERVER_PROTOCOL", owned_string("HTTP/1.1"));
    push_param(&mut params, "PHP_SELF", slash_then(request.uri.as_str()));
    push_param(&mut params, "DOCUMENT_ROOT", owned_string(directory));
    push_param(&mut params, "CONTENT_LENGTH", decimal_string(length as u64));
    let ghost base = pairs_view(params@);
    push_forwarded(&mut params, request, RequestHeader::Host, "HTTP_HOST");
    push_forwarded(&mut params, request, RequestHeader::ContentType, "CONTENT_TYPE");
    push_forwarded(&mut params, request, RequestHeader::Cookie, "HTTP_COOKIE");
    push_forwarded(&mut params, request, RequestHeader::UserAgent, "HTTP_USER_AGENT");
    push_forwarded(&mut params, request, RequestHeader::Authorization, "HTTP_AUTHORIZATION");
    assert(pairs_view(params@) =~= php_params_spec(
        request.method,
        request.uri@,
        request.query@,
        request.headers@,
        content_len(request.content),
        file_name@,
        directory@,
    ));
    params
}

/// The bytes sent to the interpreter for a request of the script `file_name` in the
/// served `directory`: `None` when the file is not a `.php` file; otherwise a FastCGI
/// request that asks to keep the connection, with the parameters of `php_params_spec`
/// and the request's body.
pub fn php_request_bytes(request: &Request, file_name: &str, directory: &str) -> (r: Option<Vec<u8>>)
    ensures
        !has_suffix(file_name@, ".php"@) ==> r is None,
        has_suffix(file_name@, ".php"@) ==> (r matches Some(b) && b@ == request_records(
            pairs_bytes(
                php_params_spec(
                    request.method,
                    request.uri@,
                    request.query@,
                    request.headers@,
                    content_len(request.content),
                    file_name@,
                    directory@,
                ),
            ),
            match request.content {
                Some(c) => c@,
                None => Seq::empty(),
            },
            true,
        )),
{
    if !ends_with(file_name, ".php") {
        return None;
    }
    let params = php_params(request, file_name, directory);
    let empty: [u8; 0] = [];
    let content: &[u8] = match &request.content {
        Some(c) => c.as_slice(),
        None => &empty,
    };
    assert(empty@ =~= Seq::<u8>::empty());
    let fcgi_request = FcgiRequest::new(params, content, true);
    Some(fcgi_request.encode())
}

/// Whether the interpreter's answer goes on after a record of this type: it does after
/// output and error output.
pub open spec fn continues_output(t: FcgiType) -> bool {
    t == FcgiType::Stdout || t == FcgiType::Stderr
}

/// Whether the interpreter's answer goes on after a record of this type.
pub fn is_output_record(t: FcgiType) -> (r: bool)
    ensures
        r == continues_output(t),
{
    t == FcgiType::Stdout || t == FcgiType::Stderr
}

/// The content of records, one after the other.
pub open spec fn records_content(records: Seq<RecordFields>) -> Seq<u8>
    decreases records.len(),
{
    if records.len() == 0 {
        Seq::empty()
    } else {
        records_content(records.drop_last()) + records.last().6
    }
}

/// The content of the interpreter's output records, one after the other.
pub fn output_bytes(records: &[FcgiRecord]) -> (r: Vec<u8>)
    ensures
        r@ == records_content(records@.map_values(|x: FcgiRecord| x@)),
{
    let mut out: Vec<u8> = Vec::new();
    let mut i: usize = 0;
    while i < records.len()
        invariant
            i <= records@.len(),
            out@ == records_content(records@.take(i as int).map_values(|x: FcgiRecord| x@)),
        decreases records.len() - i,
    {
        extend_bytes(&mut out, records[i].content_data.as_slice());
        proof {
            let t = records@.take(i + 1).map_values(|x: FcgiRecord| x@);
            assert(t.drop_last() =~= records@.take(i as int).map_values(|x: FcgiRecord| x@));
        }
        i = i + 1;
    }
    assert(records@.take(records@.len() as int) =~= records@);
    out
}

/// A line without the `\r` of a `\r\n` ending.
pub open spec fn strip_cr(line: Seq<char>) -> Seq<char> {
    if line.len() > 0 && line.last() == '\r' {
        line.drop_last()
    } else {
        line
    }
}

/// The lines of a text as `str::lines` gives them: split at each `\n`, each line that a
/// `\n` ends without a `\r` before it, and no last line when the text is empty or ends
/// with `\n`.
pub open spec fn text_lines(t: Seq<char>) -> Seq<Seq<char>> {
    let parts = split_spec(t, '\n');
    let n = parts.len();
    let ended = parts.take(n - 1).map_values(|l: Seq<char>| strip_cr(l));
    if parts[n - 1].len() == 0 {
        ended
    } else {
        ended.push(parts[n - 1])
    }
}

/// A text without white space at either end.
pub open spec fn trim_spec(s: Seq<char>) -> Seq<char> {
    trim_end_spec(trim_start_spec(s))
}

/// The name and value of a header line of the interpreter's output: the trimmed text
/// before and after its first `:`; `None` for a line without `:`.
pub open spec fn output_field(line: Seq<char>) -> Option<(Seq<char>, Seq<char>)> {
    match first_index_of(line, ':') {
        Some(k) => Some((trim_spec(line.take(k)), trim_spec(line.skip(k + 1)))),
        None => None,
    }
}

/// The code that a `Status` value gives: the number before its first space.
pub open spec fn status_value_code(value: Seq<char>) -> Option<nat> {
    parse_unsigned(split_spec(value, ' ')[0], 10, 65535)
}

/// A header line of the interpreter's output can be read: a `Status` line starts with a
/// number that fits 16 bits.
pub open spec fn output_line_readable(line: Seq<char>) -> bool {
    match output_field(line) {
        Some((name, value)) => name == "Status"@ ==> status_value_code(value) is Some,
        None => true,
    }
}

/// The status and headers after a header line: a `Status` line sets the status when its
/// code is a known status; any other line with a `:` sets a header; a line without `:`
/// changes nothing.
pub open spec fn apply_output_line(
    state: (StatusCode, Seq<((nat, Seq<char>), Seq<char>)>),
    line: Seq<char>,
) -> (StatusCode, Seq<((nat, Seq<char>), Seq<char>)>) {
    match output_field(line) {
        Some((name, value)) => if name == "Status"@ {
            match status_value_code(value) {
                Some(c) => match spec_status_from_code(c as u16) {
                    Some(s) => (s, state.1),
                    None => state,
                },
                None => state,
            }
        } else {
            (state.0, insert_entry::<ResponseHeader>(state.1, response_header_from_spec(name), value))
        },
        None => state,
    }
}

/// The status and headers that header lines give, from `200 OK` and no headers.
pub open spec fn apply_output_lines(lines: Seq<Seq<char>>) -> (
    StatusCode,
    Seq<((nat, Seq<char>), Seq<char>)>,
)
    decreases lines.len(),
{
    if lines.len() == 0 {
        (StatusCode::OK, Seq::empty())
    } else {
        apply_output_line(apply_output_lines(lines.drop_last()), lines.last())
    }
}

/// The blank line that ends the head of the interpreter's output.
pub open spec fn head_end() -> Seq<char> {
    seq!['\r', '\n', '\r', '\n']
}

/// The head and body of the interpreter's output text: split at the first blank line;
/// all head and an empty body when there is none.
pub open spec fn split_output(t: Seq<char>) -> (Seq<char>, Seq<char>) {
    match first_occurrence(t, head_end()) {
        Some(k) => (t.take(k), t.skip(k + 4)),
        None => (t, Seq::empty()),
    }
}

/// The interpreter's output can be turned into a response: it is valid UTF-8 and each
/// header line can be read.
pub open spec fn output_readable(output: Seq<u8>) -> bool {
    &&& valid_utf8(output)
    &&& forall|i: int|
        0 <= i < text_lines(split_output(decode_utf8(output)).0).len() ==> output_line_readable(
            #[trigger] text_lines(split_output(decode_utf8(output)).0)[i],
        )
}

/// The position of the first blank line (`\r\n\r\n`) in a text.
fn find_head_end(v: &Vec<char>) -> (r: Option<usize>)
    ensures
        match first_occurrence(v@, head_end()) {
            Some(i) => r matches Some(x) && x as int == i,
            None => r is None,
        },
{
    let n: usize = v.len();
    if n < 4 {
        return None;
    }
    let last: usize = n - 4;
    let mut i: usize = 0;
    while i <= last
        invariant
            n == v@.len(),
            last + 4 == n,
            first_occurrence_from(v@, head_end(), 0) == first_occurrence_from(v@, head_end(), i as int),
        decreases last + 1 - i,
    {
        if v[i] == '\r' && v[i + 1] == '\n' && v[i + 2] == '\r' && v[i + 3] == '\n' {
            assert(v@.subrange(i as int, i + 4) =~= head_end());
            return Some(i);
        }
        assert(v@.subrange(i as int, i + 4) != head_end()) by {
            if v@.subrange(i as int, i + 4) == head_end() {
                assert(v@.subrange(i as int, i + 4)[0] == v@[i as int]);
                assert(v@.subrange(i as int, i + 4)[1] == v@[i + 1]);
                assert(v@.subrange(i as int, i + 4)[2] == v@[i + 2]);
                assert(v@.subrange(i as int, i + 4)[3] == v@[i + 3]);
            }
        }
        i = i + 1;
    }
    None
}

/// A text without white space at either end.
fn trim(s: &str) -> (r: String)
    ensures
        r@ == trim_spec(s@),
{
    let v = chars_of(s);
    let start = trim_start_index(&v, 0);
    assert(v@.subrange(0, v@.len() as int) =~= v@);
    let rest = string_of_range(&v, start, v.len());
    trim_end(rest.as_str())
}

/// Reads one header line of the interpreter's output into the status and headers.
fn apply_line(status: &mut StatusCode, headers: &mut ResponseHeaderMap, line: &str)
    requires
        output_line_readable(line@),
    ensures
        (*final(status), final(headers)@) == apply_output_line((*old(status), old(headers)@), line@),
{
    let v = chars_of(line);
    let k = match find_char(&v, ':') {
        Some(k) => k,
        None => return,
    };
    proof {
        lemma_first_index_of_bounds(v@, ':');
    }
    let name_part = string_of_range(&v, 0, k);
    let vlen = v.len();
    assert(k < vlen);
    let value_part = string_of_range(&v, k + 1, vlen);
    assert(v@.subrange(0, k as int) =~= v@.take(k as int));
    assert(v@.subrange(k + 1, v@.len() as int) =~= v@.skip(k + 1));
    let name = trim(name_part.as_str());
    let value = trim(value_part.as_str());
    proof {
        reveal_strlit("Status");
    }
    if str_eq(name.as_str(), "Status") {
        let words = split_chars(value.as_str(), ' ');
        proof {
            lemma_split_nonempty(value@, ' ');
            assert(words@.map_values(|p: String| p@).len() == words@.len());
            assert(words@[0]@ == words@.map_values(|p: String| p@)[0]);
        }
        let code = match parse_unsigned_str(words[0].as_str(), 10, 65535) {
            Some(c) => c,
            None => return,
        };
        match StatusCode::from_code(code as u16) {
            Ok(s) => {
                *status = s;
            },
            Err(_) => {},
        }
    } else {
        headers.insert(ResponseHeader::from_name(name.as_str()), value);
    }
}

/// Whether one header line of the interpreter's output can be read.
fn line_can_be_read(line: &str) -> (r: bool)
    ensures
        r == output_line_readable(line@),
{
    let v = chars_of(line);
    let k = match find_char(&v, ':') {
        Some(k) => k,
        None => return true,
    };
    proof {
        lemma_first_index_of_bounds(v@, ':');
    }
    let vlen = v.len();
    assert(k < vlen);
    let name_part = string_of_range(&v, 0, k);
    let value_part = string_of_range(&v, k + 1, vlen);
    assert(v@.subrange(0, k as int) =~= v@.take(k as int));
    assert(v@.subrange(k + 1, v@.len() as int) =~= v@.skip(k + 1));
    let name = trim(name_part.as_str());
    let value = trim(value_part.as_str());
    proof {
        reveal_strlit("Status");
    }
    if str_eq(name.as_str(), "Status") {
        let words = split_chars(value.as_str(), ' ');
        proof {
            lemma_split_nonempty(value@, ' ');
            assert(words@.map_values(|p: String| p@).len() == words@.len());
            assert(words@[0]@ == words@.map_values(|p: String| p@)[0]);
        }
        parse_unsigned_str(words[0].as_str(), 10, 65535).is_some()
    } else {
        true
    }
}

/// Whether the interpreter's output can be turned into a response (see
/// `output_readable`).
pub fn output_can_be_read(output: &[u8]) -> (r: bool)
    ensures
        r == output_readable(output@),
{
    let text = match utf8_string(output) {
        Some(t) => t,
        None => return false,
    };
    let tv = chars_of(text.as_str());
    let head = match find_head_end(&tv) {
        Some(k) => {
            proof {
                lemma_first_occurrence_from(tv@, head_end(), 0);
            }
            let h = string_of_range(&tv, 0, k);
            assert(tv@.subrange(0, k as int) =~= tv@.take(k as int));
            h
        },
        None => string_of_range(&tv, 0, tv.len()),
    };
    assert(tv@.subrange(0, tv@.len() as int) =~= tv@);
    assert(head@ == split_output(tv@).0);
    let ghost lines = text_lines(head@);
    let parts = split_chars(head.as_str(), '\n');
    let n = parts.len();
    proof {
        lemma_split_nonempty(head@, '\n');
        assert(parts@.map_values(|p: String| p@).len() == parts@.len());
    }
    let mut i: usize = 0;
    while i + 1 < n
        invariant
            n == parts@.len(),
            n >= 1,
            parts@.map_values(|p: String| p@) == split_spec(head@, '\n'),
            lines == text_lines(head@),
            valid_utf8(output@),
            head@ == split_output(decode_utf8(output@)).0,
            i < n,
            forall|j: int| 0 <= j < i ==> output_line_readable(#[trigger] lines[j]),
        decreases n - i,
    {
        let pv = chars_of(parts[i].as_str());
        let line = if pv.len() > 0 && pv[pv.len() - 1] == '\r' {
            string_of_range(&pv, 0, pv.len() - 1)
        } else {
            string_of_range(&pv, 0, pv.len())
        };
        proof {
            assert(parts@[i as int]@ == split_spec(head@, '\n')[i as int]);
            assert(pv@.subrange(0, pv@.len() as int) =~= pv@);
            if pv@.len() > 0 {
                assert(pv@.subrange(0, pv@.len() - 1) =~= pv@.drop_last());
            }
            assert(lines[i as int] == line@);
        }
        if !line_can_be_read(line.as_str()) {
            assert(!output_line_readable(
                text_lines(split_output(decode_utf8(output@)).0)[i as int],
            ));
            return false;
        }
        i = i + 1;
    }
    let last = parts[n - 1].as_str();
    proof {
        assert(last@ == split_spec(head@, '\n')[n - 1]);
    }
    if !last.is_empty() {
        proof {
            assert(lines.len() == n);
            assert(lines[n - 1] == last@);
        }
        let ok = line_can_be_read(last);
        proof {
            if !ok {
                assert(!output_line_readable(
                    text_lines(split_output(decode_utf8(output@)).0)[n - 1],
                ));
            }
        }
        ok
    } else {
        proof {
            assert(lines.len() == n - 1);
        }
        true
    }
}

/// The response that the interpreter's output gives: its head's lines set the status
/// (from `200 OK`) and the headers (see `apply_output_line`), and the text after the
/// first blank line is the body; the version is `HTTP/1.1`.
pub fn php_response(output: &[u8]) -> (r: Response)
    requires
        output_readable(output@),
    ensures
        r.version@ == "HTTP/1.1"@,
        (r.status_code, r.headers@) == apply_output_lines(
            text_lines(split_output(decode_utf8(output@)).0),
        ),
        r.cookies@.len() == 0,
        r.body@ == encode_utf8(split_output(decode_utf8(output@)).1),
{
    let text = match utf8_string(output) {
        Some(t) => t,
        None => return Response::empty(StatusCode::OK),
    };
    let tv = chars_of(text.as_str());
    let (head, body) = match find_head_end(&tv) {
        Some(k) => {
            proof {
                lemma_first_occurrence_from(tv@, head_end(), 0);
            }
            let tlen = tv.len();
            assert(k + 4 <= tlen);
            let h = string_of_range(&tv, 0, k);
            let b = string_of_range(&tv, k + 4, tlen);
            assert(tv@.subrange(0, k as int) =~= tv@.take(k as int));
            assert(tv@.subrange(k + 4, tv@.len() as int) =~= tv@.skip(k + 4));
            (h, b)
        },
        None => (string_of_range(&tv, 0, tv.len()), String::new()),
    };
    assert(tv@.subrange(0, tv@.len() as int) =~= tv@);
    assert(head@ == split_output(tv@).0 && body@ == split_output(tv@).1);
    let ghost lines = text_lines(head@);
    let parts = split_chars(head.as_str(), '\n');
    let n = parts.len();
    proof {
        lemma_split_nonempty(head@, '\n');
        assert(parts@.map_values(|p: String| p@).len() == parts@.len());
    }
    let mut status = StatusCode::OK;
    let mut headers = ResponseHeaderMap::new();
    let mut i: usize = 0;
    while i + 1 < n
        invariant
            n == parts@.len(),
            n >= 1,
            parts@.map_values(|p: String| p@) == split_spec(head@, '\n'),
            lines == text_lines(head@),
            i < n,
            forall|j: int| 0 <= j < lines.len() ==> output_line_readable(#[trigger] lines[j]),
            (status, headers@) == apply_output_lines(lines.take(i as int)),
        decreases n - i,
    {
        let pv = chars_of(parts[i].as_str());
        let line = if pv.len() > 0 && pv[pv.len() - 1] == '\r' {
            string_of_range(&pv, 0, pv.len() - 1)
        } else {
            string_of_range(&pv, 0, pv.len())
        };
        proof {
            assert(parts@[i as int]@ == split_spec(head@, '\n')[i as int]);
            assert(pv@.subrange(0, pv@.len() as int) =~= pv@);
            if pv@.len() > 0 {
                assert(pv@.subrange(0, pv@.len() - 1) =~= pv@.drop_last());
            }
            assert(line@ == strip_cr(split_spec(head@, '\n')[i as int]));
            assert(lines[i as int] == line@);
            assert(lines.take(i + 1).drop_last() =~= lines.take(i as int));
        }
        apply_line(&mut status, &mut headers, line.as_str());
        i = i + 1;
    }
    let last = parts[n - 1].as_str();
    proof {
        assert(last@ == split_spec(head@, '\n')[n - 1]);
    }
    if !last.is_empty() {
        proof {
            assert(lines.len() == n);
            assert(lines[n - 1] == last@);
            assert(lines.take(n - 1) =~= lines.drop_last());
            assert(lines.take(n as int) =~= lines);
        }
        apply_line(&mut status, &mut headers, last);
    } else {
        proof {
            assert(lines.len() == n - 1);
            assert(lines.take(n - 1) =~= lines);
        }
    }
    let body_bytes = body.as_str().as_bytes();
    let mut bytes: Vec<u8> = Vec::new();
    extend_bytes(&mut bytes, body_bytes);
    proof {
        vstd::utf8::encode_utf8_decode_utf8(body@);
        assert(bytes@ =~= encode_utf8(body@));
    }
    Response {
        version: owned_string("HTTP/1.1"),
        status_code: status,
        headers,
        cookies: Vec::new(),
        body: bytes,
    }
}

} // verus!
