//! Reading the lines of a request or response head: header lines, numbers and the
//! pieces of a start line.

use vstd::prelude::*;
use vstd::utf8::{decode_utf8, encode_utf8, valid_utf8};

use crate::http::response::utf8_string;
use crate::text::{
    chars_of, find_char, first_index_of, is_white_space, lemma_first_index_of_bounds,
    lemma_first_index_of_prefix, string_of_range, trim_start_index, trim_start_spec,
};

verus! {

/// What a header line holds, once its bytes are read as text.
pub enum HeaderLine {
    /// The empty line `\r\n` that ends the head.
    End,
    /// A header's name and its value, with the white space after the `:` removed.
    Field(String, String),
}

/// Whether a head line is the empty line that ends the head.
pub open spec fn is_end_line(bytes: Seq<u8>) -> bool {
    valid_utf8(bytes) && decode_utf8(bytes) == seq!['\r', '\n']
}

/// How a head line reads: the end line; or, for a line of at least two bytes whose text
/// without its last two bytes is whole UTF-8 and holds a `:`, the name before the first
/// `:` and the value after it without its leading white space; `None` for any other line
/// (not valid UTF-8, too short, cut inside a character, or without a `:`).
pub open spec fn header_line_spec(bytes: Seq<u8>) -> Option<Option<(Seq<char>, Seq<char>)>> {
    if !valid_utf8(bytes) {
        None
    } else if is_end_line(bytes) {
        Some(None)
    } else if bytes.len() < 2 {
        None
    } else if !valid_utf8(bytes.subrange(0, bytes.len() - 2)) {
        None
    } else {
        let content = decode_utf8(bytes.subrange(0, bytes.len() - 2));
        match first_index_of(content, ':') {
            None => None,
            Some(k) => Some(Some((content.take(k), trim_start_spec(content.skip(k + 1))))),
        }
    }
}

fn copy_prefix(bytes: &[u8], n: usize) -> (r: Vec<u8>)
    requires
        n <= bytes@.len(),
    ensures
        r@ == bytes@.subrange(0, n as int),
{
    let mut v: Vec<u8> = Vec::new();
    let mut i: usize = 0;
    while i < n
        invariant
            i <= n <= bytes@.len(),
            v@ == bytes@.subrange(0, i as int),
        decreases n - i,
    {
        v.push(bytes[i]);
        assert(bytes@.subrange(0, i + 1) =~= bytes@.subrange(0, i as int).push(bytes@[i as int]));
        i = i + 1;
    }
    v
}

/// Reads one head line: `None` when it cannot be read (see `header_line_spec`).
pub fn read_header_line(bytes: &[u8]) -> (r: Option<HeaderLine>)
    ensures
        match header_line_spec(bytes@) {
            None => r is None,
            Some(None) => r matches Some(HeaderLine::End),
            Some(Some((name, value))) => r matches Some(HeaderLine::Field(n, v)) && n@ == name
                && v@ == value,
        },
{
    let text = match utf8_string(bytes) {
        Some(t) => t,
        None => return None,
    };
    let cs = chars_of(text.as_str());
    if cs.len() == 2 && cs[0] == '\r' && cs[1] == '\n' {
        assert(cs@ =~= seq!['\r', '\n']);
        return Some(HeaderLine::End);
    }
    assert(!is_end_line(bytes@)) by {
        if is_end_line(bytes@) {
            assert(cs@ == seq!['\r', '\n']);
        }
    }
    if bytes.len() < 2 {
        return None;
    }
    let prefix = copy_prefix(bytes, bytes.len() - 2);
    let content = match utf8_string(prefix.as_slice()) {
        Some(c) => c,
        None => return None,
    };
    let cv = chars_of(content.as_str());
    let k = match find_char(&cv, ':') {
        Some(k) => k,
        None => return None,
    };
    proof {
        lemma_first_index_of_bounds(cv@, ':');
    }
    let name = string_of_range(&cv, 0, k);
    let cvlen = cv.len();
    assert(k < cvlen);
    let start = trim_start_index(&cv, k + 1);
    let value = string_of_range(&cv, start, cv.len());
    assert(cv@.take(k as int) =~= cv@.subrange(0, k as int));
    assert(cv@.skip(k + 1) =~= cv@.subrange(k + 1, cv@.len() as int));
    Some(HeaderLine::Field(name, value))
}

/// The pieces of `splitn(3, ' ')`: the text before the first space, the text between the
/// first two spaces, and the rest; `None` when there are fewer than two spaces.
pub open spec fn split3_spec(s: Seq<char>) -> Option<(Seq<char>, Seq<char>, Seq<char>)> {
    match first_index_of(s, ' ') {
        None => None,
        Some(i) => {
            let rest = s.skip(i + 1);
            match first_index_of(rest, ' ') {
                None => None,
                Some(j) => Some((s.take(i), rest.take(j), rest.skip(j + 1))),
            }
        },
    }
}

/// Splits a text at its first two spaces.
pub fn split3(s: &str) -> (r: Option<(String, String, String)>)
    ensures
        match split3_spec(s@) {
            None => r is None,
            Some((a, b, c)) => r matches Some((x, y, z)) && x@ == a && y@ == b && z@ == c,
        },
{
    let cs = chars_of(s);
    let i = match find_char(&cs, ' ') {
        Some(i) => i,
        None => return None,
    };
    proof {
        lemma_first_index_of_bounds(cs@, ' ');
    }
    let first = string_of_range(&cs, 0, i);
    let rest_string = string_of_range(&cs, i + 1, cs.len());
    let rest = chars_of(rest_string.as_str());
    let j = match find_char(&rest, ' ') {
        Some(j) => j,
        None => {
            assert(rest@ =~= s@.skip(i + 1));
            return None;
        },
    };
    proof {
        lemma_first_index_of_bounds(rest@, ' ');
        assert(rest@ =~= s@.skip(i + 1));
        assert(cs@.subrange(0, i as int) =~= s@.take(i as int));
    }
    let second = string_of_range(&rest, 0, j);
    let third = string_of_range(&rest, j + 1, rest.len());
    assert(rest@.subrange(0, j as int) =~= rest@.take(j as int));
    assert(rest@.subrange(j + 1, rest@.len() as int) =~= rest@.skip(j + 1));
    Some((first, second, third))
}

/// Encoding two texts one after the other gives the encoding of the whole text.
pub proof fn lemma_encode_utf8_concat(a: Seq<char>, b: Seq<char>)
    ensures
        encode_utf8(a + b) == encode_utf8(a) + encode_utf8(b),
    decreases a.len(),
{
    if a.len() == 0 {
        assert(a + b =~= b);
        assert(encode_utf8(a) =~= Seq::<u8>::empty());
        assert(encode_utf8(a) + encode_utf8(b) =~= encode_utf8(b));
    } else {
        assert((a + b).drop_first() =~= a.drop_first() + b);
        assert((a + b)[0] == a[0]);
        lemma_encode_utf8_concat(a.drop_first(), b);
        assert(encode_utf8(a + b) =~= encode_utf8(a) + encode_utf8(b));
    }
}

/// The line ending `\r\n` is encoded as the bytes 13 and 10.
pub proof fn lemma_encode_crlf()
    ensures
        encode_utf8(seq!['\r', '\n']) == seq![13u8, 10u8],
{
    let crlf = seq!['\r', '\n'];
    assert(('\r' as u32) == 13u32);
    assert(('\n' as u32) == 10u32);
    assert((13u32 & 0x7Fu32) == 13u32) by (bit_vector);
    assert((10u32 & 0x7Fu32) == 10u32) by (bit_vector);
    assert(vstd::utf8::encode_scalar(13u32) =~= seq![13u8]);
    assert(vstd::utf8::encode_scalar(10u32) =~= seq![10u8]);
    assert(crlf.drop_first() =~= seq!['\n']);
    assert(seq!['\n'].drop_first() =~= Seq::<char>::empty());
    assert(encode_utf8(Seq::<char>::empty()) =~= Seq::<u8>::empty());
    assert(encode_utf8(seq!['\n']) =~= seq![10u8]);
    assert(encode_utf8(crlf) =~= seq![13u8, 10u8]);
}

/// The bytes of a header line as it is written: the name, `: `, the value, and `\r\n`.
pub open spec fn written_header_line(name: Seq<char>, value: Seq<char>) -> Seq<u8> {
    encode_utf8(name + seq![':', ' '] + value) + seq![13u8, 10u8]
}

/// A written header line reads back as its name and value, when the name holds no `:` and
/// the value does not start with white space.
pub proof fn lemma_header_line_roundtrip(name: Seq<char>, value: Seq<char>)
    requires
        !name.contains(':'),
        value.len() > 0 ==> !is_white_space(value[0]),
    ensures
        header_line_spec(written_header_line(name, value)) == Some(Some((name, value))),
{
    let content = name + seq![':', ' '] + value;
    let line = written_header_line(name, value);
    lemma_encode_crlf();
    lemma_encode_utf8_concat(content, seq!['\r', '\n']);
    vstd::utf8::encode_utf8_decode_utf8(content + seq!['\r', '\n']);
    vstd::utf8::encode_utf8_valid_utf8(content + seq!['\r', '\n']);
    vstd::utf8::encode_utf8_decode_utf8(content);
    vstd::utf8::encode_utf8_valid_utf8(content);
    assert(line == encode_utf8(content + seq!['\r', '\n']));
    assert(line.subrange(0, line.len() - 2) =~= encode_utf8(content));
    assert(!is_end_line(line)) by {
        assert(decode_utf8(line).len() == content.len() + 2);
    }
    assert forall|j: int| 0 <= j < name.len() implies content[j] != ':' by {
        if content[j] == ':' {
            assert(name[j] == ':');
        }
    }
    assert(content[name.len() as int] == ':');
    lemma_first_index_of_prefix(content, ':', name.len() as int);
    let k = name.len() as int;
    assert(content.take(k) =~= name);
    assert(content.skip(k + 1) =~= seq![' '] + value);
    assert(trim_start_spec(seq![' '] + value) == trim_start_spec(value)) by {
        assert((seq![' '] + value).drop_first() =~= value);
        assert(is_white_space(' '));
    }
}

/// The separator `: ` is encoded as the bytes 58 and 32.
pub proof fn lemma_encode_colon_space()
    ensures
        encode_utf8(seq![':', ' ']) == seq![58u8, 32u8],
{
    let sep = seq![':', ' '];
    assert((':' as u32) == 58u32);
    assert((' ' as u32) == 32u32);
    assert((58u32 & 0x7Fu32) == 58u32) by (bit_vector);
    assert((32u32 & 0x7Fu32) == 32u32) by (bit_vector);
    assert(vstd::utf8::encode_scalar(58u32) =~= seq![58u8]);
    assert(vstd::utf8::encode_scalar(32u32) =~= seq![32u8]);
    assert(sep.drop_first() =~= seq![' ']);
    assert(seq![' '].drop_first() =~= Seq::<char>::empty());
    assert(encode_utf8(Seq::<char>::empty()) =~= Seq::<u8>::empty());
    assert(encode_utf8(seq![' ']) =~= seq![32u8]);
    assert(encode_utf8(sep) =~= seq![58u8, 32u8]);
}

/// The bytes of a written header line, piece by piece.
pub proof fn lemma_written_header_line(name: Seq<char>, value: Seq<char>)
    ensures
        written_header_line(name, value) == encode_utf8(name) + seq![58u8, 32u8] + encode_utf8(value)
            + seq![13u8, 10u8],
{
    lemma_encode_colon_space();
    lemma_encode_utf8_concat(name, seq![':', ' ']);
    lemma_encode_utf8_concat(name + seq![':', ' '], value);
}

/// The written header lines of header entries, one after the other.
pub open spec fn written_header_lines(entries: Seq<((nat, Seq<char>), Seq<char>)>) -> Seq<u8>
    decreases entries.len(),
{
    if entries.len() == 0 {
        Seq::empty()
    } else {
        written_header_lines(entries.drop_last()) + written_header_line(
            entries.last().0.1,
            entries.last().1,
        )
    }
}

/// The empty line `\r\n` reads as the end of the head.
pub proof fn lemma_end_line()
    ensures
        header_line_spec(seq![13u8, 10u8]) == Some(None::<(Seq<char>, Seq<char>)>),
{
    lemma_encode_crlf();
    vstd::utf8::encode_utf8_decode_utf8(seq!['\r', '\n']);
    vstd::utf8::encode_utf8_valid_utf8(seq!['\r', '\n']);
}

/// The written lines of header entries, one per entry, in order.
pub open spec fn written_line_seq(entries: Seq<((nat, Seq<char>), Seq<char>)>) -> Seq<Seq<u8>> {
    entries.map_values(|e: ((nat, Seq<char>), Seq<char>)| written_header_line(e.0.1, e.1))
}

/// A header entry can be written and read back: its name holds no `:` and its value does
/// not start with white space.
pub open spec fn writable_entry(e: ((nat, Seq<char>), Seq<char>)) -> bool {
    &&& !e.0.1.contains(':')
    &&& e.1.len() > 0 ==> !is_white_space(e.1[0])
}

/// The written header lines of entries are their lines, one after the other.
pub proof fn lemma_written_lines_flatten(entries: Seq<((nat, Seq<char>), Seq<char>)>)
    ensures
        written_header_lines(entries) == written_line_seq(entries).flatten(),
    decreases entries.len(),
{
    let lines = written_line_seq(entries);
    if entries.len() > 0 {
        lemma_written_lines_flatten(entries.drop_last());
        assert(lines.drop_last() =~= written_line_seq(entries.drop_last()));
        written_line_seq(entries.drop_last()).lemma_flatten_and_flatten_alt_are_equivalent();
    }
    lines.lemma_flatten_and_flatten_alt_are_equivalent();
    if entries.len() == 0 {
        assert(lines.flatten_alt() =~= Seq::<u8>::empty());
    }
}

} // verus!
