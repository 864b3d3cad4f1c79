use humphrey::percent::{PercentDecode, PercentEncode};

#[test]
fn encode_unreserved_chars() {
    let string = "thisisatest";
    let encoded = string.percent_encode();

    assert_eq!(encoded, string);
}

#[test]
fn encode_reserved_chars() {
    let string = "this is a test! (and brackets)";
    let encoded = string.percent_encode();

    assert_eq!(encoded, "this%20is%20a%20test%21%20%28and%20brackets%29");
}

#[test]
fn encode_bytes() {
    let bytes = b"this is a \0null character";
    let encoded = bytes.percent_encode();

    assert_eq!(encoded, "this%20is%20a%20%00null%20character");
}

#[test]
fn decode_unreserved_chars() {
    let string = "thisisatest";
    let decoded = string.percent_decode();

    assert_eq!(decoded, Some(string.as_bytes().to_vec()));
}

#[test]
fn decode_reserved_chars() {
    let string = "this%20is%20a%20test%21%20%28and%20brackets%29";
    let decoded = string.percent_decode();

    assert_eq!(decoded, Some(b"this is a test! (and brackets)".to_vec()));
}

#[test]
fn decode_bytes() {
    let string = "this%20is%20a%20%00null%20character";
    let decoded = string.percent_decode();

    assert_eq!(decoded, Some(b"this is a \0null character".to_vec()));
}

#[test]
fn percent_roundtrip_of_every_byte() {
    let bytes: Vec<u8> = (0u8..=255).collect();
    let encoded = bytes.percent_encode();
    assert_eq!(encoded.as_str().percent_decode(), Some(bytes));
}

#[test]
fn percent_decode_rejects_bad_escapes() {
    assert_eq!("abc%2".percent_decode(), None);
    assert_eq!("abc%zz".percent_decode(), None);
    assert_eq!("%41%42".percent_decode(), Some(b"AB".to_vec()));
}

#[test]
fn percent_encode_keeps_unreserved_symbols() {
    assert_eq!("a-b_c.d~e".percent_encode(), "a-b_c.d~e");
    assert_eq!("/".percent_encode(), "%2F");
}
