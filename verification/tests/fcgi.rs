use humphrey::fcgi::{FcgiRecord, FcgiRequest, FcgiType, Params, RecordError, FCGI_VERSION};

#[test]
fn record_types() {
    assert_eq!(FcgiType::try_from(1u8), Ok(FcgiType::Begin));
    assert_eq!(FcgiType::try_from(11u8), Ok(FcgiType::UnknownType));
    assert_eq!(FcgiType::try_from(0u8), Err(()));
    assert_eq!(FcgiType::try_from(12u8), Err(()));
    assert_eq!(FcgiType::Stdout.number(), 6);
}

#[test]
fn begin_record_bytes() {
    let bytes = FcgiRecord::begin_record(0, true).into_bytes();
    assert_eq!(bytes, vec![1, 1, 0, 0, 0, 8, 0, 0, 0, 1, 1, 0, 0, 0, 0, 0]);
    let bytes = FcgiRecord::begin_record(0x0102, false).into_bytes();
    assert_eq!(bytes, vec![1, 1, 1, 2, 0, 8, 0, 0, 0, 1, 0, 0, 0, 0, 0, 0]);
}

#[test]
fn records_read_back() {
    let record = FcgiRecord::new(FcgiType::Stdout, b"hello", 7);
    assert_eq!(record.version, FCGI_VERSION);
    assert_eq!(record.content_length, 5);
    let mut bytes = record.clone().into_bytes();
    bytes.extend_from_slice(b"trailing");
    assert_eq!(FcgiRecord::read_from(&bytes), Ok(record));
    let padded = vec![1, 6, 0, 1, 0, 2, 3, 0, b'h', b'i', 0, 0, 0];
    let read = FcgiRecord::read_from(&padded).unwrap();
    assert_eq!(read.content_data, b"hi".to_vec());
    assert_eq!(read.padding_data, vec![0, 0, 0]);
    assert_eq!(FcgiRecord::read_from(&padded[..12]), Err(RecordError::UnexpectedEnd));
    assert_eq!(FcgiRecord::read_from(&[1, 6, 0]), Err(RecordError::UnexpectedEnd));
    assert_eq!(FcgiRecord::read_from(&[1, 0, 0, 1, 0, 0, 0, 0]), Err(RecordError::UnknownType));
    assert_eq!(FcgiRecord::read_from(&[1, 12, 0, 1, 0, 5, 0, 0]), Err(RecordError::UnknownType));
    assert_eq!(FcgiRecord::record_length(&[1, 6, 0, 1, 0, 2, 3, 0]), Ok(13));
    assert_eq!(FcgiRecord::record_length(&[1, 6, 0, 1, 1, 0, 0, 0]), Ok(264));
    assert_eq!(FcgiRecord::record_length(&[1, 0, 0, 1, 0, 2, 3, 0]), Err(RecordError::UnknownType));
}

#[test]
fn params_encoding() {
    let params = vec![("A".to_string(), "xyz".to_string())];
    assert_eq!(params.encode(), vec![1, 3, b'A', b'x', b'y', b'z']);
    let long = "v".repeat(200);
    let params = vec![("N".to_string(), long.clone())];
    let encoded = params.encode();
    assert_eq!(&encoded[..6], &[1, 0, 0, 0, 200, b'N']);
    assert_eq!(encoded.len(), 6 + 200);
}

#[test]
fn request_encoding() {
    let request = FcgiRequest::new(Vec::new(), b"", false);
    let bytes = request.encode();
    assert_eq!(bytes.len(), 16 + 8 + 8);
    assert_eq!(&bytes[16..], &[1, 4, 0, 0, 0, 0, 0, 0, 1, 5, 0, 0, 0, 0, 0, 0]);
    let request = FcgiRequest::new(vec![("A".to_string(), "b".to_string())], b"body", true);
    let bytes = request.encode();
    assert_eq!(bytes.len(), 16 + (8 + 4) + 8 + (8 + 4) + 8);
    assert_eq!(&bytes[16..28], &[1, 4, 0, 0, 0, 4, 0, 0, 1, 1, b'A', b'b']);
    assert_eq!(&bytes[36..48], &[1, 5, 0, 0, 0, 4, 0, 0, b'b', b'o', b'd', b'y']);
}

#[test]
fn encoded_requests_read_back_as_records() {
    let request = FcgiRequest::new(vec![("A".to_string(), "b".to_string())], b"body", true);
    let bytes = request.encode();
    let mut offset = 0;
    let mut kinds = Vec::new();
    let mut contents = Vec::new();
    while offset < bytes.len() {
        let record = FcgiRecord::read_from(&bytes[offset..]).unwrap();
        offset += 8 + record.content_length as usize + record.padding_length as usize;
        kinds.push(record.fcgi_type);
        contents.push(record.content_data);
    }
    assert_eq!(
        kinds,
        vec![FcgiType::Begin, FcgiType::Params, FcgiType::Params, FcgiType::Stdin, FcgiType::Stdin]
    );
    assert_eq!(contents[0], vec![0, 1, 1, 0, 0, 0, 0, 0]);
    assert_eq!(contents[1], vec![1, 1, b'A', b'b']);
    assert!(contents[2].is_empty());
    assert_eq!(contents[3], b"body".to_vec());
    assert!(contents[4].is_empty());
}
