//! Small text utilities shared by the parsers and formatters.

use vstd::prelude::*;

verus! {

/// Appends one character to a string.
///
/// Wraps `String::push`, whose documentation says that it appends the given `char` to the
/// end of the string; the contract claims exactly that of the string's characters.
#[verifier::external_body]
pub(crate) fn string_push(s: &mut String, c: char)
    ensures
        final(s)@ == old(s)@.push(c),
{
    s.push(c);
}

} // verus!
verus! {

/// Lower-case form of an ASCII letter; every other character is unchanged.
pub open spec fn ascii_lower_char(c: char) -> char {
    if 'A' <= c <= 'Z' {
        ((c as u32) + 32) as char
    } else {
        c
    }
}

/// The text with every ASCII upper-case letter replaced by its lower-case form.
pub open spec fn ascii_lower(s: Seq<char>) -> Seq<char> {
    s.map_values(|c: char| ascii_lower_char(c))
}

fn lower_char(c: char) -> (r: char)
    ensures
        r == ascii_lower_char(c),
{
    if 'A' <= c && c <= 'Z' {
        ((c as u8) + 32) as char
    } else {
        c
    }
}

/// Returns the text with ASCII letters in lower case.
pub fn to_ascii_lowercase(s: &str) -> (r: String)
    ensures
        r@ == ascii_lower(s@),
{
    let mut out = String::new();
    for c in iter: s.chars()
        invariant
            out@ == ascii_lower(iter.seq().take(iter.index() as int)),
    {
        string_push(&mut out, lower_char(c));
    }
    out
}

} // verus!
verus! {

/// Whether two byte sequences are equal.
pub fn bytes_eq(a: &[u8], b: &[u8]) -> (r: bool)
    ensures
        r == (a@ == b@),
{
    if a.len() != b.len() {
        return false;
    }
    let mut i: usize = 0;
    while i < a.len()
        invariant
            a.len() == b.len(),
            i <= a.len(),
            a@.take(i as int) == b@.take(i as int),
        decreases a.len() - i,
    {
        if a[i] != b[i] {
            assert(a@[i as int] != b@[i as int]);
            return false;
        }
        assert(a@.take(i + 1) =~= a@.take(i as int).push(a@[i as int]));
        assert(b@.take(i + 1) =~= b@.take(i as int).push(b@[i as int]));
        i = i + 1;
    }
    assert(a@ =~= a@.take(i as int));
    assert(b@ =~= b@.take(i as int));
    true
}

/// Whether two texts are equal.
pub fn str_eq(a: &str, b: &str) -> (r: bool)
    ensures
        r == (a@ == b@),
{
    let r = bytes_eq(a.as_bytes(), b.as_bytes());
    proof {
        vstd::utf8::encode_utf8_decode_utf8(a@);
        vstd::utf8::encode_utf8_decode_utf8(b@);
    }
    r
}

/// An owned copy of a text.
pub fn owned_string(s: &str) -> (r: String)
    ensures
        r@ == s@,
{
    s.to_owned()
}

} // verus!
verus! {

/// Lexicographic order of texts by the numeric values of their characters, which is
/// also the byte order of their UTF-8 encodings.
pub open spec fn text_lt(a: Seq<char>, b: Seq<char>) -> bool
    decreases a.len(),
{
    if a.len() == 0 {
        b.len() > 0
    } else if b.len() == 0 {
        false
    } else if (a[0] as u32) < (b[0] as u32) {
        true
    } else if a[0] == b[0] {
        text_lt(a.drop_first(), b.drop_first())
    } else {
        false
    }
}

/// No text comes before itself.
pub proof fn lemma_text_lt_irreflexive(a: Seq<char>)
    ensures
        !text_lt(a, a),
    decreases a.len(),
{
    if a.len() > 0 {
        lemma_text_lt_irreflexive(a.drop_first());
    }
}

/// The order of texts is transitive.
pub proof fn lemma_text_lt_transitive(a: Seq<char>, b: Seq<char>, c: Seq<char>)
    requires
        text_lt(a, b),
        text_lt(b, c),
    ensures
        text_lt(a, c),
    decreases a.len(),
{
    if a.len() > 0 && b.len() > 0 && c.len() > 0 {
        if a[0] == b[0] && b[0] == c[0] {
            lemma_text_lt_transitive(a.drop_first(), b.drop_first(), c.drop_first());
        }
    }
}

/// Of two different texts, one comes before the other.
pub proof fn lemma_text_lt_total(a: Seq<char>, b: Seq<char>)
    ensures
        a == b || text_lt(a, b) || text_lt(b, a),
    decreases a.len(),
{
    if a.len() > 0 && b.len() > 0 {
        lemma_text_lt_total(a.drop_first(), b.drop_first());
        if a[0] == b[0] && a.drop_first() == b.drop_first() {
            assert(a =~= seq![a[0]] + a.drop_first());
            assert(b =~= seq![b[0]] + b.drop_first());
        }
        if a[0] != b[0] {
            vstd::utf8::char_u32_cast(a[0], a[0] as u32);
            vstd::utf8::char_u32_cast(b[0], b[0] as u32);
        }
    } else if a.len() == 0 && b.len() == 0 {
        assert(a =~= b);
    }
}

/// How one text is ordered relative to another.
#[derive(Clone, Copy, Debug, PartialEq, Eq, Structural)]
pub enum TextOrder {
    /// The first text comes first.
    Less,
    /// The texts are equal.
    Equal,
    /// The second text comes first.
    Greater,
}

/// The characters of a text.
pub fn chars_of(s: &str) -> (r: Vec<char>)
    ensures
        r@ == s@,
{
    let mut out: Vec<char> = Vec::new();
    for c in iter: s.chars()
        invariant
            out@ == iter.seq().take(iter.index() as int),
    {
        out.push(c);
    }
    out
}

/// Compares two texts given by their characters.
pub fn compare_chars(a: &Vec<char>, b: &Vec<char>) -> (r: TextOrder)
    ensures
        r == TextOrder::Less <==> text_lt(a@, b@),
        r == TextOrder::Equal <==> a@ == b@,
        r == TextOrder::Greater <==> text_lt(b@, a@),
{
    let mut i: usize = 0;
    assert(a@.skip(0) =~= a@);
    assert(b@.skip(0) =~= b@);
    while i < a.len() && i < b.len()
        invariant
            i <= a.len(),
            i <= b.len(),
            a@.take(i as int) == b@.take(i as int),
            text_lt(a@, b@) == text_lt(a@.skip(i as int), b@.skip(i as int)),
            text_lt(b@, a@) == text_lt(b@.skip(i as int), a@.skip(i as int)),
        decreases a.len() - i,
    {
        let x = a[i];
        let y = b[i];
        proof {
            assert(a@.skip(i as int)[0] == x);
            assert(b@.skip(i as int)[0] == y);
            assert(a@.skip(i as int).drop_first() =~= a@.skip(i + 1));
            assert(b@.skip(i as int).drop_first() =~= b@.skip(i + 1));
        }
        if (x as u32) < (y as u32) {
            proof {
                lemma_text_lt_total(a@, b@);
                assert(!text_lt(b@.skip(i as int), a@.skip(i as int)));
                assert(a@[i as int] != b@[i as int]);
            }
            return TextOrder::Less;
        }
        if (y as u32) < (x as u32) {
            proof {
                assert(a@[i as int] != b@[i as int]);
            }
            return TextOrder::Greater;
        }
        proof {
            vstd::utf8::char_u32_cast(x, x as u32);
            vstd::utf8::char_u32_cast(y, y as u32);
            assert(x == y);
            assert(a@.take(i + 1) =~= a@.take(i as int).push(x));
            assert(b@.take(i + 1) =~= b@.take(i as int).push(y));
        }
        i = i + 1;
    }
    proof {
        assert(a@.skip(i as int).len() == 0 || b@.skip(i as int).len() == 0);
    }
    if a.len() < b.len() {
        proof {
            assert(b@[i as int] == b@.skip(i as int)[0]);
            assert(a@ =~= a@.take(i as int));
            assert(a@ != b@);
        }
        TextOrder::Less
    } else if b.len() < a.len() {
        proof {
            assert(b@ =~= b@.take(i as int));
            assert(a@ != b@);
        }
        TextOrder::Greater
    } else {
        proof {
            assert(a@ =~= a@.take(i as int));
            assert(b@ =~= b@.take(i as int));
            lemma_text_lt_irreflexive(a@);
        }
        TextOrder::Equal
    }
}

} // verus!
verus! {

/// Appends a text to a string.
///
/// Wraps `String::push_str`, whose documentation says that it appends the given string
/// slice onto the end of the string; the contract claims exactly that of the characters.
#[verifier::external_body]
pub(crate) fn string_push_str(s: &mut String, t: &str)
    ensures
        final(s)@ == old(s)@ + t@,
{
    s.push_str(t);
}

/// The character of a decimal digit.
pub open spec fn digit_char(d: nat) -> char {
    (48 + d) as char
}

/// The decimal representation of a number, without leading zeros.
pub open spec fn decimal(n: nat) -> Seq<char>
    decreases n,
{
    if n < 10 {
        seq![digit_char(n)]
    } else {
        decimal(n / 10).push(digit_char(n % 10))
    }
}

/// The decimal representation of a number, padded with a zero to at least two digits.
pub open spec fn decimal2(n: nat) -> Seq<char> {
    if n < 10 {
        seq!['0', digit_char(n)]
    } else {
        decimal(n)
    }
}

/// Appends the decimal representation of a number to a string.
pub fn push_decimal(s: &mut String, n: u64)
    ensures
        final(s)@ == old(s)@ + decimal(n as nat),
    decreases n,
{
    if n >= 10 {
        push_decimal(s, n / 10);
    }
    let d = (n % 10) as u8;
    string_push(s, (48 + d) as char);
    proof {
        if n >= 10 {
            assert(decimal(n as nat) == decimal((n / 10) as nat).push(digit_char((n % 10) as nat)));
        }
    }
    assert(final(s)@ =~= old(s)@ + decimal(n as nat));
}

/// Appends a number to a string, padded to at least two digits.
pub fn push_decimal2(s: &mut String, n: u64)
    ensures
        final(s)@ == old(s)@ + decimal2(n as nat),
{
    if n < 10 {
        string_push(s, '0');
        string_push(s, (48 + (n as u8)) as char);
        assert(final(s)@ =~= old(s)@ + decimal2(n as nat));
    } else {
        push_decimal(s, n);
    }
}

/// The decimal representation of a number.
pub fn decimal_string(n: u64) -> (r: String)
    ensures
        r@ == decimal(n as nat),
{
    let mut s = String::new();
    push_decimal(&mut s, n);
    assert(s@ =~= decimal(n as nat));
    s
}

/// Appends bytes to a byte vector.
pub fn extend_bytes(v: &mut Vec<u8>, s: &[u8])
    ensures
        final(v)@ == old(v)@ + s@,
{
    let mut i: usize = 0;
    while i < s.len()
        invariant
            i <= s.len(),
            v@ == old(v)@ + s@.take(i as int),
        decreases s.len() - i,
    {
        v.push(s[i]);
        assert(s@.take(i + 1) =~= s@.take(i as int).push(s@[i as int]));
        assert(v@ =~= old(v)@ + s@.take(i + 1));
        i = i + 1;
    }
    assert(s@.take(i as int) =~= s@);
}

/// Appends the UTF-8 bytes of a text to a byte vector.
pub fn extend_str(v: &mut Vec<u8>, s: &str)
    ensures
        final(v)@ == old(v)@ + vstd::utf8::encode_utf8(s@),
{
    extend_bytes(v, s.as_bytes());
}

} // verus!
verus! {

/// A text made of the characters `v[a..b]`.
pub fn string_of_range(v: &Vec<char>, a: usize, b: usize) -> (r: String)
    requires
        a <= b <= v@.len(),
    ensures
        r@ == v@.subrange(a as int, b as int),
{
    let mut s = String::new();
    let mut i = a;
    while i < b
        invariant
            a <= i <= b,
            b <= v@.len(),
            s@ == v@.subrange(a as int, i as int),
        decreases b - i,
    {
        string_push(&mut s, v[i]);
        assert(v@.subrange(a as int, i + 1) =~= v@.subrange(a as int, i as int).push(v@[i as int]));
        i = i + 1;
    }
    s
}

/// The position of the first occurrence of a character, if any.
pub open spec fn first_index_of(s: Seq<char>, c: char) -> Option<int>
    decreases s.len(),
{
    if s.len() == 0 {
        None
    } else if s[0] == c {
        Some(0)
    } else {
        match first_index_of(s.drop_first(), c) {
            Some(i) => Some(i + 1),
            None => None,
        }
    }
}

/// A character found at `i` with none before it is the first occurrence; with none in the
/// whole text there is no occurrence.
pub proof fn lemma_first_index_of_prefix(s: Seq<char>, c: char, i: int)
    requires
        0 <= i <= s.len(),
        forall|j: int| 0 <= j < i ==> s[j] != c,
    ensures
        i < s.len() && s[i] == c ==> first_index_of(s, c) == Some(i),
        i == s.len() ==> first_index_of(s, c) is None,
    decreases i,
{
    if i > 0 && s.len() > 0 {
        lemma_first_index_of_prefix(s.drop_first(), c, i - 1);
    }
}

/// The first occurrence of a character, and everything after it lies at or after it.
pub proof fn lemma_first_index_of_bounds(s: Seq<char>, c: char)
    ensures
        first_index_of(s, c) matches Some(i) ==> 0 <= i < s.len() && s[i] == c && forall|j: int|
            0 <= j < i ==> s[j] != c,
        first_index_of(s, c) is None ==> forall|j: int| 0 <= j < s.len() ==> s[j] != c,
    decreases s.len(),
{
    if s.len() > 0 {
        lemma_first_index_of_bounds(s.drop_first(), c);
        if s[0] != c {
            match first_index_of(s.drop_first(), c) {
                Some(i) => {
                    assert forall|j: int| 0 <= j < i + 1 implies s[j] != c by {
                        if j > 0 {
                            assert(s[j] == s.drop_first()[j - 1]);
                        }
                    }
                },
                None => {
                    assert forall|j: int| 0 <= j < s.len() implies s[j] != c by {
                        if j > 0 {
                            assert(s[j] == s.drop_first()[j - 1]);
                        }
                    }
                },
            }
        }
    }
}

/// Finds the first occurrence of a character.
pub fn find_char(v: &Vec<char>, c: char) -> (r: Option<usize>)
    ensures
        match first_index_of(v@, c) {
            Some(i) => r == Some(i as usize),
            None => r is None,
        },
{
    let mut i: usize = 0;
    while i < v.len()
        invariant
            i <= v@.len(),
            forall|j: int| 0 <= j < i ==> v@[j] != c,
        decreases v.len() - i,
    {
        if v[i] == c {
            proof {
                lemma_first_index_of_prefix(v@, c, i as int);
            }
            return Some(i);
        }
        i = i + 1;
    }
    proof {
        lemma_first_index_of_prefix(v@, c, i as int);
    }
    None
}

/// The pieces of a text between occurrences of a separator, as `str::split` gives them:
/// one more piece than there are separators.
pub open spec fn split_spec(s: Seq<char>, sep: char) -> Seq<Seq<char>>
    decreases s.len(),
{
    if s.len() == 0 {
        seq![Seq::empty()]
    } else {
        let r = split_spec(s.drop_last(), sep);
        if s.last() == sep {
            r.push(Seq::empty())
        } else {
            r.update(r.len() - 1, r.last().push(s.last()))
        }
    }
}

/// A text splits into at least one piece.
pub proof fn lemma_split_nonempty(s: Seq<char>, sep: char)
    ensures
        split_spec(s, sep).len() >= 1,
    decreases s.len(),
{
    if s.len() > 0 {
        lemma_split_nonempty(s.drop_last(), sep);
    }
}

/// Splits a text at every occurrence of a separator.
pub fn split_chars(s: &str, sep: char) -> (r: Vec<String>)
    ensures
        r@.map_values(|p: String| p@) == split_spec(s@, sep),
{
    let cs = chars_of(s);
    let mut pieces: Vec<String> = Vec::new();
    let mut start: usize = 0;
    let mut i: usize = 0;
    assert(cs@.take(0) =~= Seq::<char>::empty());
    assert(pieces@.map_values(|p: String| p@) =~= Seq::<Seq<char>>::empty());
    assert(pieces@.map_values(|p: String| p@).push(cs@.subrange(0, 0)) =~= split_spec(
        cs@.take(0),
        sep,
    ));
    while i < cs.len()
        invariant
            start <= i <= cs@.len(),
            cs@ == s@,
            pieces@.map_values(|p: String| p@).push(cs@.subrange(start as int, i as int))
                == split_spec(cs@.take(i as int), sep),
        decreases cs.len() - i,
    {
        proof {
            lemma_split_nonempty(cs@.take(i as int), sep);
            assert(cs@.take(i + 1).drop_last() =~= cs@.take(i as int));
            assert(cs@.take(i + 1).last() == cs@[i as int]);
        }
        if cs[i] == sep {
            let piece = string_of_range(&cs, start, i);
            pieces.push(piece);
            start = i + 1;
            proof {
                assert(pieces@.map_values(|p: String| p@) =~= split_spec(cs@.take(i as int), sep));
                assert(cs@.subrange(start as int, i + 1) =~= Seq::<char>::empty());
            }
        } else {
            proof {
                let old_pieces = pieces@.map_values(|p: String| p@);
                let r = split_spec(cs@.take(i as int), sep);
                assert(r.last() == cs@.subrange(start as int, i as int));
                assert(cs@.subrange(start as int, i + 1) =~= cs@.subrange(start as int, i as int).push(cs@[i as int]));
                assert(old_pieces.push(cs@.subrange(start as int, i + 1)) =~= r.update(
                    r.len() - 1,
                    r.last().push(cs@[i as int]),
                ));
            }
        }
        i = i + 1;
    }
    let last = string_of_range(&cs, start, i);
    pieces.push(last);
    proof {
        assert(cs@.take(i as int) =~= s@);
        assert(pieces@.map_values(|p: String| p@) =~= split_spec(s@, sep));
    }
    pieces
}

/// Whether a character is white space, as `char::is_whitespace` decides it: the
/// characters with the Unicode White_Space property.
pub open spec fn is_white_space(c: char) -> bool {
    let u = c as u32;
    (9 <= u <= 13) || u == 32 || u == 0x85 || u == 0xa0 || u == 0x1680 || (0x2000 <= u <= 0x200a)
        || u == 0x2028 || u == 0x2029 || u == 0x202f || u == 0x205f || u == 0x3000
}

/// The text without its leading white space.
pub open spec fn trim_start_spec(s: Seq<char>) -> Seq<char>
    decreases s.len(),
{
    if s.len() > 0 && is_white_space(s[0]) {
        trim_start_spec(s.drop_first())
    } else {
        s
    }
}

/// Whether a character is white space.
pub fn char_is_white_space(c: char) -> (r: bool)
    ensures
        r == is_white_space(c),
{
    let u = c as u32;
    (9 <= u && u <= 13) || u == 32 || u == 0x85 || u == 0xa0 || u == 0x1680 || (0x2000 <= u && u
        <= 0x200a) || u == 0x2028 || u == 0x2029 || u == 0x202f || u == 0x205f || u == 0x3000
}

/// The position where the text stops being leading white space.
pub fn trim_start_index(v: &Vec<char>, from: usize) -> (r: usize)
    requires
        from <= v@.len(),
    ensures
        from <= r <= v@.len(),
        v@.subrange(r as int, v@.len() as int) == trim_start_spec(
            v@.subrange(from as int, v@.len() as int),
        ),
{
    let mut i = from;
    while i < v.len() && char_is_white_space(v[i])
        invariant
            from <= i <= v@.len(),
            trim_start_spec(v@.subrange(i as int, v@.len() as int)) == trim_start_spec(
                v@.subrange(from as int, v@.len() as int),
            ),
        decreases v.len() - i,
    {
        assert(v@.subrange(i as int, v@.len() as int).drop_first() =~= v@.subrange(
            i + 1,
            v@.len() as int,
        ));
        i = i + 1;
    }
    i
}

/// The text with every `\r\n` removed, scanning from the left.
pub open spec fn remove_crlf(s: Seq<char>) -> Seq<char>
    decreases s.len(),
{
    if s.len() < 2 {
        s
    } else if s[0] == '\r' && s[1] == '\n' {
        remove_crlf(s.subrange(2, s.len() as int))
    } else {
        seq![s[0]] + remove_crlf(s.drop_first())
    }
}

/// Removes every `\r\n` from a text.
pub fn without_crlf(s: &str) -> (r: String)
    ensures
        r@ == remove_crlf(s@),
{
    let v = chars_of(s);
    let mut out = String::new();
    let mut i: usize = 0;
    assert(v@.subrange(0, v@.len() as int) =~= v@);
    while i < v.len()
        invariant
            i <= v@.len(),
            v@ == s@,
            out@ + remove_crlf(v@.subrange(i as int, v@.len() as int)) == remove_crlf(s@),
        decreases v.len() - i,
    {
        let ghost rest = v@.subrange(i as int, v@.len() as int);
        if i + 1 < v.len() && v[i] == '\r' && v[i + 1] == '\n' {
            assert(rest.subrange(2, rest.len() as int) =~= v@.subrange(i + 2, v@.len() as int));
            i = i + 2;
        } else {
            if i + 1 >= v.len() {
                assert(rest =~= seq![v@[i as int]]);
                assert(v@.subrange(i + 1, v@.len() as int) =~= Seq::<char>::empty());
            } else {
                assert(rest.drop_first() =~= v@.subrange(i + 1, v@.len() as int));
            }
            let ghost before = out@;
            string_push(&mut out, v[i]);
            assert(before + (seq![v@[i as int]] + remove_crlf(v@.subrange(i + 1, v@.len() as int)))
                =~= out@ + remove_crlf(v@.subrange(i + 1, v@.len() as int)));
            i = i + 1;
        }
    }
    assert(v@.subrange(i as int, v@.len() as int) =~= Seq::<char>::empty());
    assert(out@ + Seq::<char>::empty() =~= out@);
    out
}

} // verus!
verus! {

/// The value of a digit in the given radix (at most 36), if the character is one.
pub open spec fn digit_value(c: char, radix: nat) -> Option<nat> {
    let u = c as u32;
    let d: int = if 48 <= u <= 57 {
        u - 48
    } else if 97 <= u <= 122 {
        u - 87
    } else if 65 <= u <= 90 {
        u - 55
    } else {
        99
    };
    if d < radix {
        Some(d as nat)
    } else {
        None
    }
}

/// The value of a sequence of digits, if every character is a digit.
pub open spec fn digits_value(ds: Seq<char>, radix: nat) -> Option<nat>
    decreases ds.len(),
{
    if ds.len() == 0 {
        Some(0)
    } else {
        match (digits_value(ds.drop_last(), radix), digit_value(ds.last(), radix)) {
            (Some(v), Some(d)) => Some(v * radix + d),
            _ => None,
        }
    }
}

/// An unsigned number read from text the way the standard library reads one: an
/// optional `+`, then at least one digit, with a value no greater than `max`.
pub open spec fn parse_unsigned(s: Seq<char>, radix: nat, max: nat) -> Option<nat> {
    let ds = if s.len() > 1 && s[0] == '+' {
        s.drop_first()
    } else {
        s
    };
    if ds.len() == 0 {
        None
    } else {
        match digits_value(ds, radix) {
            Some(v) => if v <= max {
                Some(v)
            } else {
                None
            },
            None => None,
        }
    }
}

fn char_digit_value(c: char, radix: u64) -> (r: Option<u64>)
    requires
        2 <= radix <= 36,
    ensures
        match digit_value(c, radix as nat) {
            Some(d) => r == Some(d as u64),
            None => r is None,
        },
{
    let u = c as u32;
    let d: u64 = if 48 <= u && u <= 57 {
        (u - 48) as u64
    } else if 97 <= u && u <= 122 {
        (u - 87) as u64
    } else if 65 <= u && u <= 90 {
        (u - 55) as u64
    } else {
        99
    };
    if d < radix {
        Some(d)
    } else {
        None
    }
}

/// Reads an unsigned number in the given radix that is no greater than `max`.
pub fn parse_unsigned_str(s: &str, radix: u64, max: u64) -> (r: Option<u64>)
    requires
        2 <= radix <= 36,
    ensures
        match parse_unsigned(s@, radix as nat, max as nat) {
            Some(v) => r == Some(v as u64),
            None => r is None,
        },
{
    let v = chars_of(s);
    let start: usize = if v.len() > 1 && v[0] == '+' {
        1
    } else {
        0
    };
    let ghost ds = if s@.len() > 1 && s@[0] == '+' {
        s@.drop_first()
    } else {
        s@
    };
    assert(ds =~= v@.subrange(start as int, v@.len() as int));
    if start == v.len() {
        return None;
    }
    let mut value: u64 = 0;
    let mut fits = true;
    let mut i = start;
    assert(ds.take(0) =~= Seq::<char>::empty());
    while i < v.len()
        invariant
            start <= i <= v@.len(),
            2 <= radix <= 36,
            ds == v@.subrange(start as int, v@.len() as int),
            fits ==> digits_value(ds.take(i - start), radix as nat) == Some(value as nat)
                && value <= max,
            !fits ==> match digits_value(ds.take(i - start), radix as nat) {
                Some(x) => x > max,
                None => true,
            },
        decreases v.len() - i,
    {
        let ghost k = i - start;
        assert(ds.take(k + 1).drop_last() =~= ds.take(k));
        assert(ds.take(k + 1).last() == v@[i as int]);
        match char_digit_value(v[i], radix) {
            Some(d) => {
                if fits {
                    let v128 = value as u128;
                    let r128 = radix as u128;
                    assert(v128 * r128 <= 36 * 0xffff_ffff_ffff_ffffu128) by (nonlinear_arith)
                        requires
                            v128 <= 0xffff_ffff_ffff_ffffu128,
                            r128 <= 36,
                    ;
                    assert(d < 36);
                    let wide: u128 = v128 * r128 + (d as u128);
                    if wide <= max as u128 {
                        value = wide as u64;
                    } else {
                        fits = false;
                    }
                } else {
                    proof {
                        match digits_value(ds.take(k), radix as nat) {
                            Some(x) => {
                                assert(x * (radix as nat) + d >= x) by (nonlinear_arith)
                                    requires
                                        radix >= 2,
                                ;
                            },
                            None => {},
                        }
                    }
                }
            },
            None => {
                fits = false;
            },
        }
        i = i + 1;
    }
    assert(ds.take((i - start) as int) =~= ds);
    if fits {
        Some(value)
    } else {
        None
    }
}

} // verus!
verus! {

/// The text without its trailing white space.
pub open spec fn trim_end_spec(s: Seq<char>) -> Seq<char>
    decreases s.len(),
{
    if s.len() > 0 && is_white_space(s.last()) {
        trim_end_spec(s.drop_last())
    } else {
        s
    }
}

/// A text without its trailing white space.
pub fn trim_end(s: &str) -> (r: String)
    ensures
        r@ == trim_end_spec(s@),
{
    let v = chars_of(s);
    let mut n = v.len();
    assert(v@.take(n as int) =~= v@);
    while n > 0 && char_is_white_space(v[n - 1])
        invariant
            n <= v@.len(),
            v@ == s@,
            trim_end_spec(v@.take(n as int)) == trim_end_spec(s@),
        decreases n,
    {
        assert(v@.take(n as int).drop_last() =~= v@.take(n - 1));
        n = n - 1;
    }
    assert(v@.subrange(0, n as int) =~= v@.take(n as int));
    string_of_range(&v, 0, n)
}

} // verus!
verus! {

/// Texts joined with a separator between each two.
pub open spec fn join_spec(parts: Seq<Seq<char>>, sep: Seq<char>) -> Seq<char>
    decreases parts.len(),
{
    if parts.len() == 0 {
        Seq::empty()
    } else if parts.len() == 1 {
        parts[0]
    } else {
        join_spec(parts.drop_last(), sep) + sep + parts.last()
    }
}

/// Joins texts with a separator between each two.
pub fn join_strings(parts: &Vec<String>, sep: &str) -> (r: String)
    ensures
        r@ == join_spec(parts@.map_values(|p: String| p@), sep@),
{
    let ghost views = parts@.map_values(|p: String| p@);
    let mut out = String::new();
    let mut i: usize = 0;
    assert(views.take(0) =~= Seq::<Seq<char>>::empty());
    while i < parts.len()
        invariant
            i <= parts@.len(),
            views == parts@.map_values(|p: String| p@),
            out@ == join_spec(views.take(i as int), sep@),
        decreases parts.len() - i,
    {
        let ghost before = out@;
        if i > 0 {
            string_push_str(&mut out, sep);
        }
        string_push_str(&mut out, parts[i].as_str());
        proof {
            let t = views.take(i + 1);
            assert(t.drop_last() =~= views.take(i as int));
            assert(t.last() == parts@[i as int]@);
            if i == 0 {
                assert(out@ =~= parts@[0]@);
            } else {
                assert(out@ =~= before + sep@ + parts@[i as int]@);
            }
        }
        i = i + 1;
    }
    assert(views.take(i as int) =~= views);
    out
}

} // verus!
verus! {

/// Whether `s` begins with `p`.
pub open spec fn has_prefix(s: Seq<char>, p: Seq<char>) -> bool {
    p.len() <= s.len() && s.take(p.len() as int) == p
}

/// Whether `s` ends with `p`.
pub open spec fn has_suffix(s: Seq<char>, p: Seq<char>) -> bool {
    p.len() <= s.len() && s.skip(s.len() - p.len()) == p
}

/// Whether `s` begins with `p`.
pub fn starts_with(s: &str, p: &str) -> (r: bool)
    ensures
        r == has_prefix(s@, p@),
{
    let sv = chars_of(s);
    let pv = chars_of(p);
    if pv.len() > sv.len() {
        return false;
    }
    let mut i: usize = 0;
    while i < pv.len()
        invariant
            sv@ == s@,
            pv@ == p@,
            i <= pv@.len() <= sv@.len(),
            sv@.take(i as int) == pv@.take(i as int),
        decreases pv.len() - i,
    {
        if sv[i] != pv[i] {
            assert(sv@.take(pv@.len() as int)[i as int] != pv@[i as int]);
            assert(sv@.take(pv@.len() as int) != pv@);
            return false;
        }
        assert(sv@.take(i + 1) =~= sv@.take(i as int).push(sv@[i as int]));
        assert(pv@.take(i + 1) =~= pv@.take(i as int).push(pv@[i as int]));
        i = i + 1;
    }
    assert(pv@.take(i as int) =~= pv@);
    true
}

/// Whether `s` ends with `p`.
pub fn ends_with(s: &str, p: &str) -> (r: bool)
    ensures
        r == has_suffix(s@, p@),
{
    let sv = chars_of(s);
    let pv = chars_of(p);
    if pv.len() > sv.len() {
        return false;
    }
    let n: usize = sv.len();
    let off: usize = n - pv.len();
    let mut i: usize = 0;
    while i < pv.len()
        invariant
            n == sv@.len(),
            sv@ == s@,
            pv@ == p@,
            i <= pv@.len() <= sv@.len(),
            off + pv@.len() == sv@.len(),
            forall|j: int| 0 <= j < i ==> sv@[off + j] == pv@[j],
        decreases pv.len() - i,
    {
        let k: usize = off + i;
        if sv[k] != pv[i] {
            assert(sv@.skip(off as int)[i as int] != pv@[i as int]);
            assert(sv@.skip(off as int) != pv@);
            return false;
        }
        i = i + 1;
    }
    assert(sv@.skip(off as int) =~= pv@);
    true
}

/// The text without the occurrences of a character at its start.
pub open spec fn trim_start_char(s: Seq<char>, c: char) -> Seq<char>
    decreases s.len(),
{
    if s.len() > 0 && s[0] == c {
        trim_start_char(s.drop_first(), c)
    } else {
        s
    }
}

/// The text without the occurrences of a character at its end.
pub open spec fn trim_end_char(s: Seq<char>, c: char) -> Seq<char>
    decreases s.len(),
{
    if s.len() > 0 && s.last() == c {
        trim_end_char(s.drop_last(), c)
    } else {
        s
    }
}

/// A text without the occurrences of a character at its start.
pub fn trim_start_matches(v: &Vec<char>, c: char) -> (r: String)
    ensures
        r@ == trim_start_char(v@, c),
{
    let mut i: usize = 0;
    assert(v@.subrange(0, v@.len() as int) =~= v@);
    while i < v.len() && v[i] == c
        invariant
            i <= v@.len(),
            trim_start_char(v@.subrange(i as int, v@.len() as int), c) == trim_start_char(v@, c),
        decreases v.len() - i,
    {
        assert(v@.subrange(i as int, v@.len() as int).drop_first() =~= v@.subrange(i + 1, v@.len() as int));
        i = i + 1;
    }
    string_of_range(v, i, v.len())
}

/// A text without the occurrences of a character at its end.
pub fn trim_end_matches(v: &Vec<char>, c: char) -> (r: String)
    ensures
        r@ == trim_end_char(v@, c),
{
    let mut n = v.len();
    assert(v@.take(n as int) =~= v@);
    while n > 0 && v[n - 1] == c
        invariant
            n <= v@.len(),
            trim_end_char(v@.take(n as int), c) == trim_end_char(v@, c),
        decreases n,
    {
        assert(v@.take(n as int).drop_last() =~= v@.take(n - 1));
        n = n - 1;
    }
    assert(v@.subrange(0, n as int) =~= v@.take(n as int));
    string_of_range(v, 0, n)
}

/// The decimal representation of a number is a non-empty run of digits whose value is the
/// number.
pub proof fn lemma_decimal_digits(n: nat)
    ensures
        decimal(n).len() >= 1,
        forall|i: int| 0 <= i < decimal(n).len() ==> 48 <= #[trigger] (decimal(n)[i] as u32) <= 57,
        digits_value(decimal(n), 10) == Some(n),
    decreases n,
{
    if n < 10 {
        let c = digit_char(n);
        assert((c as u32) == 48 + n);
        assert(decimal(n).drop_last() =~= Seq::<char>::empty());
        assert(decimal(n).last() == c);
        assert(digit_value(c, 10) == Some(n));
        assert(digits_value(Seq::<char>::empty(), 10) == Some(0nat));
    } else {
        lemma_decimal_digits(n / 10);
        let c = digit_char(n % 10);
        assert((c as u32) == 48 + n % 10);
        assert(digit_value(c, 10) == Some(n % 10));
        assert(decimal(n).drop_last() =~= decimal(n / 10));
        assert(decimal(n).last() == c);
        assert(n == (n / 10) * 10 + n % 10);
        assert forall|i: int| 0 <= i < decimal(n).len() implies 48 <= #[trigger] (decimal(n)[i] as u32)
            <= 57 by {
            if i < decimal(n / 10).len() {
                assert(decimal(n)[i] == decimal(n / 10)[i]);
            }
        }
    }
}

/// A decimal representation reads back as its number.
pub proof fn lemma_parse_decimal(n: nat, max: nat)
    requires
        n <= max,
    ensures
        parse_unsigned(decimal(n), 10, max) == Some(n),
        !decimal(n).contains(' '),
{
    lemma_decimal_digits(n);
    assert(decimal(n)[0] != '+') by {
        assert(48 <= (decimal(n)[0] as u32));
    }
    assert forall|i: int| 0 <= i < decimal(n).len() implies decimal(n)[i] != ' ' by {
        assert(48 <= (decimal(n)[i] as u32));
    }
}

/// A text without the separator is one piece.
pub proof fn lemma_split_single(t: Seq<char>, sep: char)
    requires
        !t.contains(sep),
    ensures
        split_spec(t, sep) == seq![t],
    decreases t.len(),
{
    if t.len() > 0 {
        let init = t.drop_last();
        assert(!init.contains(sep)) by {
            if init.contains(sep) {
                let i = choose|i: int| 0 <= i < init.len() && init[i] == sep;
                assert(t[i] == sep);
            }
        }
        lemma_split_single(init, sep);
        assert(t.last() != sep) by {
            assert(t[t.len() - 1] == t.last());
        }
        assert(init.push(t.last()) =~= t);
        assert(seq![init].update(0, init.push(t.last())) =~= seq![t]);
    } else {
        assert(t =~= Seq::<char>::empty());
    }
}

/// Splitting a text joined at a separator gives the pieces of each part.
pub proof fn lemma_split_join(s: Seq<char>, t: Seq<char>, sep: char)
    ensures
        split_spec(s + seq![sep] + t, sep) == split_spec(s, sep) + split_spec(t, sep),
    decreases t.len(),
{
    lemma_split_nonempty(s, sep);
    let x = s + seq![sep] + t;
    if t.len() == 0 {
        assert(x =~= s + seq![sep]);
        assert(x.drop_last() =~= s);
        assert(split_spec(x, sep) =~= split_spec(s, sep) + split_spec(t, sep));
    } else {
        let t0 = t.drop_last();
        lemma_split_join(s, t0, sep);
        lemma_split_nonempty(t0, sep);
        assert(x.drop_last() =~= s + seq![sep] + t0);
        assert(x.last() == t.last());
        let r = split_spec(s, sep) + split_spec(t0, sep);
        if t.last() == sep {
            assert(split_spec(x, sep) =~= split_spec(s, sep) + split_spec(t, sep));
        } else {
            let q = split_spec(t0, sep);
            assert(r.last() == q.last());
            assert(r.update(r.len() - 1, r.last().push(t.last())) =~= split_spec(s, sep) + q.update(
                q.len() - 1,
                q.last().push(t.last()),
            ));
        }
    }
}

/// A text without `\r` ends, after `\r\n` is appended and every `\r\n` removed, as it was.
pub proof fn lemma_remove_crlf_appended(v: Seq<char>)
    requires
        !v.contains('\r'),
    ensures
        remove_crlf(v + seq!['\r', '\n']) == v,
    decreases v.len(),
{
    let x = v + seq!['\r', '\n'];
    if v.len() == 0 {
        assert(x =~= seq!['\r', '\n']);
        assert(x.subrange(2, 2) =~= Seq::<char>::empty());
        assert(x[0] == '\r' && x[1] == '\n');
        assert(remove_crlf(x) == remove_crlf(x.subrange(2, x.len() as int)));
        assert(remove_crlf(Seq::<char>::empty()) == Seq::<char>::empty());
        assert(v =~= Seq::<char>::empty());
    } else {
        let rest = v.drop_first();
        assert(!rest.contains('\r')) by {
            if rest.contains('\r') {
                let i = choose|i: int| 0 <= i < rest.len() && rest[i] == '\r';
                assert(v[i + 1] == '\r');
            }
        }
        assert(v[0] != '\r') by {
            if v[0] == '\r' {
                assert(v.contains('\r'));
            }
        }
        lemma_remove_crlf_appended(rest);
        assert(x.drop_first() =~= rest + seq!['\r', '\n']);
        assert(x[0] == v[0]);
        assert(x.len() >= 2);
        assert(remove_crlf(x) == seq![x[0]] + remove_crlf(x.drop_first()));
        assert(seq![v[0]] + rest =~= v);
    }
}

} // verus!
