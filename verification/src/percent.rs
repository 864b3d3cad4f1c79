//! Percent-encoding of bytes into text and percent-decoding of text back into bytes.

use vstd::prelude::*;

use vstd::string::StringSliceAdditionalSpecFns;
use vstd::utf8::*;

use crate::text::string_push;

verus! {

/// Whether a byte is one of the unreserved characters `A-Z a-z 0-9 - _ . ~`,
/// which are written as themselves by the encoder.
pub open spec fn is_unreserved(b: u8) -> bool {
    (65 <= b <= 90) || (97 <= b <= 122) || (48 <= b <= 57) || b == 45 || b == 95 || b == 46
        || b == 126
}

/// The upper-case hexadecimal digit for a value below 16.
pub open spec fn hex_digit_upper(n: u8) -> char {
    if n < 10 {
        (48 + n) as char
    } else {
        (55 + n) as char
    }
}

/// The characters that encode one byte.
pub open spec fn encode_byte(b: u8) -> Seq<char> {
    if is_unreserved(b) {
        seq![b as char]
    } else {
        seq!['%', hex_digit_upper(b / 16), hex_digit_upper(b % 16)]
    }
}

/// The percent-encoding of a byte sequence: each byte in turn, unreserved bytes as
/// themselves and every other byte as `%` and two upper-case hexadecimal digits.
pub open spec fn percent_encode_spec(bytes: Seq<u8>) -> Seq<char>
    decreases bytes.len(),
{
    if bytes.len() == 0 {
        Seq::empty()
    } else {
        encode_byte(bytes[0]) + percent_encode_spec(bytes.drop_first())
    }
}

/// The value of a hexadecimal digit (either case).
pub open spec fn hex_value(d: u8) -> Option<u8> {
    if 48 <= d <= 57 {
        Some((d - 48) as u8)
    } else if 65 <= d <= 70 {
        Some((d - 55) as u8)
    } else if 97 <= d <= 102 {
        Some((d - 87) as u8)
    } else {
        None
    }
}

/// The byte written by the two characters that follow a `%`, read as a base-16 number
/// the way the standard library reads it: two hexadecimal digits, or `+` and one digit.
pub open spec fn decode_pair(d1: u8, d2: u8) -> Option<u8> {
    if d1 == 43 {
        hex_value(d2)
    } else {
        match (hex_value(d1), hex_value(d2)) {
            (Some(a), Some(b)) => Some((a * 16 + b) as u8),
            _ => None,
        }
    }
}

/// Puts a byte in front of a decoding result.
pub open spec fn prepend_decoded(prefix: Seq<u8>, rest: Option<Seq<u8>>) -> Option<Seq<u8>> {
    match rest {
        Some(r) => Some(prefix + r),
        None => None,
    }
}

/// The percent-decoding of the bytes of a text: `%` followed by two characters that
/// read as a base-16 byte stands for that byte, every other byte stands for itself;
/// a `%` without two such characters after it makes the whole decoding fail.
pub open spec fn percent_decode_spec(bytes: Seq<u8>) -> Option<Seq<u8>>
    decreases bytes.len(),
{
    if bytes.len() == 0 {
        Some(Seq::empty())
    } else if bytes[0] == 37 {
        if bytes.len() < 3 {
            None
        } else {
            match decode_pair(bytes[1], bytes[2]) {
                Some(b) => prepend_decoded(seq![b], percent_decode_spec(bytes.subrange(3, bytes.len() as int))),
                None => None,
            }
        }
    } else {
        prepend_decoded(seq![bytes[0]], percent_decode_spec(bytes.drop_first()))
    }
}

/// The bytes of a text made of ASCII characters, one per character.
pub open spec fn ascii_bytes(chars: Seq<char>) -> Seq<u8> {
    Seq::new(chars.len(), |i: int| chars[i] as u8)
}

proof fn lemma_encode_append(bytes: Seq<u8>, b: u8)
    ensures
        percent_encode_spec(bytes.push(b)) == percent_encode_spec(bytes) + encode_byte(b),
    decreases bytes.len(),
{
    if bytes.len() == 0 {
        assert(bytes.push(b).drop_first() =~= Seq::<u8>::empty());
        assert(percent_encode_spec(Seq::<u8>::empty()) == Seq::<char>::empty());
        assert(percent_encode_spec(bytes.push(b)) =~= encode_byte(b));
    } else {
        lemma_encode_append(bytes.drop_first(), b);
        assert(bytes.push(b).drop_first() =~= bytes.drop_first().push(b));
        assert(percent_encode_spec(bytes.push(b)) =~= percent_encode_spec(bytes) + encode_byte(b));
    }
}

proof fn lemma_encode_byte_ascii(b: u8)
    ensures
        is_ascii_chars(encode_byte(b)),
        forall|i: int| 0 <= i < encode_byte(b).len() ==> (encode_byte(b)[i] as u32) < 128,
{
    assert(b / 16 < 16);
    assert(b % 16 < 16);
}

proof fn lemma_encode_ascii(bytes: Seq<u8>)
    ensures
        is_ascii_chars(percent_encode_spec(bytes)),
    decreases bytes.len(),
{
    if bytes.len() > 0 {
        lemma_encode_ascii(bytes.drop_first());
        lemma_encode_byte_ascii(bytes[0]);
        let a = encode_byte(bytes[0]);
        let r = percent_encode_spec(bytes.drop_first());
        assert forall|i| 0 <= i < (a + r).len() implies '\0' <= #[trigger] (a + r)[i] <= '\u{7f}' by {
            if i < a.len() {
                assert((a + r)[i] == a[i]);
            } else {
                assert((a + r)[i] == r[i - a.len()]);
            }
        }
    }
}

proof fn lemma_hex_digit_value(n: u8)
    requires
        n < 16,
    ensures
        hex_value(hex_digit_upper(n) as u8) == Some(n),
        hex_digit_upper(n) as u8 != 43,
{
}

proof fn lemma_decode_encoded_byte(b: u8, rest: Seq<u8>)
    ensures
        percent_decode_spec(ascii_bytes(encode_byte(b)) + rest) == prepend_decoded(
            seq![b],
            percent_decode_spec(rest),
        ),
{
    let e = ascii_bytes(encode_byte(b));
    let all = e + rest;
    if is_unreserved(b) {
        assert(all[0] == b);
        assert(all.drop_first() =~= rest);
    } else {
        lemma_hex_digit_value(b / 16);
        lemma_hex_digit_value(b % 16);
        assert(all[0] == 37);
        assert(all[1] == hex_digit_upper(b / 16) as u8);
        assert(all[2] == hex_digit_upper(b % 16) as u8);
        assert((b / 16) * 16 + b % 16 == b);
        assert(all.subrange(3, all.len() as int) =~= rest);
    }
}

/// Decoding the bytes of an encoded text gives back the bytes that were encoded.
pub proof fn lemma_percent_roundtrip(bytes: Seq<u8>)
    ensures
        is_ascii_chars(percent_encode_spec(bytes)),
        percent_decode_spec(encode_utf8(percent_encode_spec(bytes))) == Some(bytes),
    decreases bytes.len(),
{
    lemma_encode_ascii(bytes);
    lemma_roundtrip_ascii(bytes);
    let chars = percent_encode_spec(bytes);
    is_ascii_chars_encode_utf8(chars);
    assert(encode_utf8(chars) =~= ascii_bytes(chars));
}

proof fn lemma_roundtrip_ascii(bytes: Seq<u8>)
    ensures
        percent_decode_spec(ascii_bytes(percent_encode_spec(bytes))) == Some(bytes),
    decreases bytes.len(),
{
    if bytes.len() == 0 {
        assert(ascii_bytes(percent_encode_spec(bytes)) =~= Seq::<u8>::empty());
        assert(bytes =~= Seq::<u8>::empty());
    } else {
        let rest = bytes.drop_first();
        lemma_roundtrip_ascii(rest);
        let a = encode_byte(bytes[0]);
        let r = percent_encode_spec(rest);
        assert(ascii_bytes(a + r) =~= ascii_bytes(a) + ascii_bytes(r));
        lemma_decode_encoded_byte(bytes[0], ascii_bytes(r));
        assert(seq![bytes[0]] + rest =~= bytes);
    }
}

/// The characters that RFC 3986 leaves unreserved: the ASCII letters and digits, `-`,
/// `_`, `.` and `~`.
pub open spec fn unreserved_char(c: char) -> bool {
    ('A' <= c && c <= 'Z') || ('a' <= c && c <= 'z') || ('0' <= c && c <= '9') || c == '-' || c
        == '_' || c == '.' || c == '~'
}

/// A byte is written as itself exactly when it is an unreserved character; every other
/// byte is written as `%` and its value in two upper-case hexadecimal digits.
pub proof fn lemma_percent_encode_byte(b: u8)
    ensures
        percent_encode_spec(seq![b]) == if unreserved_char(b as char) {
            seq![b as char]
        } else {
            seq!['%', "0123456789ABCDEF"@[(b / 16) as int], "0123456789ABCDEF"@[(b % 16) as int]]
        },
{
    reveal_strlit("0123456789ABCDEF");
    lemma_encode_append(Seq::<u8>::empty(), b);
    assert(Seq::<u8>::empty().push(b) =~= seq![b]);
    assert(percent_encode_spec(Seq::<u8>::empty()) == Seq::<char>::empty());
    assert(percent_encode_spec(seq![b]) =~= encode_byte(b));
    assert(('A' as u32) == 65 && ('Z' as u32) == 90 && ('a' as u32) == 97 && ('z' as u32) == 122);
    assert(('0' as u32) == 48 && ('9' as u32) == 57 && ('-' as u32) == 45 && ('_' as u32) == 95);
    assert(('.' as u32) == 46 && ('~' as u32) == 126);
    assert(is_unreserved(b) == unreserved_char(b as char));
    let hi = b / 16;
    let lo = b % 16;
    assert(hex_digit_upper(hi) == "0123456789ABCDEF"@[hi as int]);
    assert(hex_digit_upper(lo) == "0123456789ABCDEF"@[lo as int]);
}

/// Encoding two byte sequences one after the other gives the encoding of the whole.
pub proof fn lemma_percent_encode_concat(a: Seq<u8>, b: Seq<u8>)
    ensures
        percent_encode_spec(a + b) == percent_encode_spec(a) + percent_encode_spec(b),
    decreases a.len(),
{
    if a.len() == 0 {
        assert(a + b =~= b);
        assert(percent_encode_spec(a) + percent_encode_spec(b) =~= percent_encode_spec(b));
    } else {
        lemma_percent_encode_concat(a.drop_first(), b);
        assert((a + b).drop_first() =~= a.drop_first() + b);
        assert((a + b)[0] == a[0]);
        assert(percent_encode_spec(a + b) =~= percent_encode_spec(a) + percent_encode_spec(b));
    }
}

fn is_unreserved_byte(b: u8) -> (r: bool)
    ensures
        r == is_unreserved(b),
{
    (65 <= b && b <= 90) || (97 <= b && b <= 122) || (48 <= b && b <= 57) || b == 45 || b == 95
        || b == 46 || b == 126
}

fn hex_digit(n: u8) -> (c: char)
    requires
        n < 16,
    ensures
        c == hex_digit_upper(n),
{
    if n < 10 {
        (48 + n) as char
    } else {
        (55 + n) as char
    }
}

/// Percent-encodes a byte sequence.
pub fn percent_encode_bytes(bytes: &[u8]) -> (r: String)
    ensures
        r@ == percent_encode_spec(bytes@),
{
    let mut encoded = String::new();
    let mut i: usize = 0;
    while i < bytes.len()
        invariant
            i <= bytes.len(),
            encoded@ == percent_encode_spec(bytes@.take(i as int)),
        decreases bytes.len() - i,
    {
        let b = bytes[i];
        proof {
            lemma_encode_append(bytes@.take(i as int), b);
            assert(bytes@.take(i as int).push(b) =~= bytes@.take(i + 1));
        }
        if is_unreserved_byte(b) {
            string_push(&mut encoded, b as char);
        } else {
            string_push(&mut encoded, '%');
            string_push(&mut encoded, hex_digit(b / 16));
            string_push(&mut encoded, hex_digit(b % 16));
        }
        assert(encoded@ =~= percent_encode_spec(bytes@.take(i + 1)));
        i = i + 1;
    }
    assert(bytes@.take(i as int) =~= bytes@);
    encoded
}

fn hex_digit_value(d: u8) -> (r: Option<u8>)
    ensures
        r == hex_value(d),
{
    if 48 <= d && d <= 57 {
        Some(d - 48)
    } else if 65 <= d && d <= 70 {
        Some(d - 55)
    } else if 97 <= d && d <= 102 {
        Some(d - 87)
    } else {
        None
    }
}

fn decode_hex_pair(d1: u8, d2: u8) -> (r: Option<u8>)
    ensures
        r == decode_pair(d1, d2),
{
    if d1 == 43 {
        hex_digit_value(d2)
    } else {
        match (hex_digit_value(d1), hex_digit_value(d2)) {
            (Some(a), Some(b)) => Some(a * 16 + b),
            _ => None,
        }
    }
}

/// Percent-decodes the bytes of a text.
pub fn percent_decode_bytes(bytes: &[u8]) -> (r: Option<Vec<u8>>)
    ensures
        match percent_decode_spec(bytes@) {
            Some(d) => r matches Some(v) && v@ == d,
            None => r is None,
        },
{
    let mut decoded: Vec<u8> = Vec::new();
    let mut i: usize = 0;
    proof {
        assert(bytes@.subrange(0, bytes.len() as int) =~= bytes@);
        match percent_decode_spec(bytes@) {
            Some(d) => assert(decoded@ + d =~= d),
            None => {},
        }
    }
    while i < bytes.len()
        invariant
            i <= bytes.len(),
            percent_decode_spec(bytes@) == prepend_decoded(
                decoded@,
                percent_decode_spec(bytes@.subrange(i as int, bytes.len() as int)),
            ),
        decreases bytes.len() - i,
    {
        let ghost rest = bytes@.subrange(i as int, bytes.len() as int);
        if bytes[i] == 37 {
            if bytes.len() - i < 3 {
                assert(percent_decode_spec(rest) is None);
                return None;
            }
            match decode_hex_pair(bytes[i + 1], bytes[i + 2]) {
                Some(b) => {
                    proof {
                        let tail = bytes@.subrange(i + 3, bytes.len() as int);
                        assert(rest.subrange(3, rest.len() as int) =~= tail);
                        assert(decoded@.push(b) =~= decoded@ + seq![b]);
                        match percent_decode_spec(tail) {
                            Some(t) => {
                                assert(decoded@ + (seq![b] + t) =~= decoded@.push(b) + t);
                            },
                            None => {},
                        }
                    }
                    decoded.push(b);
                    i = i + 3;
                },
                None => {
                    return None;
                },
            }
        } else {
            proof {
                let tail = bytes@.subrange(i + 1, bytes.len() as int);
                assert(rest.drop_first() =~= tail);
                match percent_decode_spec(tail) {
                    Some(t) => {
                        assert(decoded@ + (seq![bytes@[i as int]] + t) =~= decoded@.push(
                            bytes@[i as int],
                        ) + t);
                    },
                    None => {},
                }
            }
            decoded.push(bytes[i]);
            i = i + 1;
        }
    }
    proof {
        assert(bytes@.subrange(i as int, bytes.len() as int) =~= Seq::<u8>::empty());
        assert(decoded@ + Seq::<u8>::empty() =~= decoded@);
    }
    Some(decoded)
}

/// A value that can be percent-encoded.
pub trait PercentEncode {
    /// Percent-encodes the value.
    fn percent_encode(&self) -> String;
}

/// A value that can be percent-decoded.
pub trait PercentDecode {
    /// Attempts to percent-decode the value.
    fn percent_decode(&self) -> Option<Vec<u8>>;
}

impl PercentEncode for [u8] {
    fn percent_encode(&self) -> (r: String)
        ensures
            r@ == percent_encode_spec(self@),
    {
        percent_encode_bytes(self)
    }
}

impl PercentEncode for str {
    fn percent_encode(&self) -> (r: String)
        ensures
            r@ == percent_encode_spec(self.spec_bytes()),
    {
        percent_encode_bytes(self.as_bytes())
    }
}

impl PercentDecode for str {
    fn percent_decode(&self) -> (r: Option<Vec<u8>>)
        ensures
            match percent_decode_spec(self.spec_bytes()) {
                Some(d) => r matches Some(v) && v@ == d,
                None => r is None,
            },
    {
        percent_decode_bytes(self.as_bytes())
    }
}

} // verus!
