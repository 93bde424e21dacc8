use extractous::codec::{encode_documents, read_i32, read_string, unpack_optimized_data};
use extractous::embedded::EmbeddedDocument;
use extractous::errors::ExtractError;

fn doc(name: &str, ctype: &str, content: &[u8], rel: Option<&str>) -> EmbeddedDocument {
    EmbeddedDocument {
        resource_name: name.to_string(),
        content_type: ctype.to_string(),
        content: content.to_vec(),
        embedded_relationship_id: rel.map(|s| s.to_string()),
    }
}

fn sample_docs() -> Vec<EmbeddedDocument> {
    vec![
        doc("a.png", "image/png", &[1, 2, 3], Some("rId1")),
        doc("b.txt", "text/plain", b"hello", None),
        doc("c.bin", "application/octet-stream", &[], Some("")),
    ]
}

#[test]
fn round_trip_three_documents() {
    let docs = sample_docs();
    let buf = encode_documents(&docs).unwrap();
    let out = unpack_optimized_data(&buf, 3).unwrap();
    assert_eq!(out.len(), 3);
    assert_eq!(out[0].resource_name, "a.png");
    assert_eq!(out[0].content_type, "image/png");
    assert_eq!(out[0].content, vec![1, 2, 3]);
    assert_eq!(out[0].embedded_relationship_id.as_deref(), Some("rId1"));
    assert_eq!(out[1].resource_name, "b.txt");
    assert_eq!(out[1].content_type, "text/plain");
    assert_eq!(out[1].content, b"hello".to_vec());
    assert_eq!(out[1].embedded_relationship_id, None);
    assert_eq!(out[2].resource_name, "c.bin");
    assert_eq!(out[2].content, Vec::<u8>::new());
    // The documented lossy case: an empty relationship id decodes as absent.
    assert_eq!(out[2].embedded_relationship_id, None);
}

#[test]
fn round_trip_unicode_fields() {
    let docs = vec![doc("r\u{e9}sum\u{e9}.pdf", "application/pdf", &[0xff, 0x00], Some("\u{1f4c4}"))];
    let buf = encode_documents(&docs).unwrap();
    let out = unpack_optimized_data(&buf, 1).unwrap();
    assert_eq!(out[0].resource_name, "r\u{e9}sum\u{e9}.pdf");
    assert_eq!(out[0].embedded_relationship_id.as_deref(), Some("\u{1f4c4}"));
    assert_eq!(out[0].content, vec![0xff, 0x00]);
}

#[test]
fn round_trip_empty_sequence() {
    let buf = encode_documents(&Vec::new()).unwrap();
    assert_eq!(buf, vec![0, 0, 0, 0]);
    let out = unpack_optimized_data(&buf, 0).unwrap();
    assert!(out.is_empty());
}

#[test]
fn count_mismatch_fails_with_parse_error() {
    let docs = sample_docs();
    let buf = encode_documents(&docs).unwrap();
    let err = unpack_optimized_data(&buf, 2).unwrap_err();
    match &err {
        ExtractError::ParseError(m) => {
            assert_eq!(m, "Document count mismatch: expected 2, got 3")
        },
        other => panic!("wrong variant: {:?}", other),
    }
    let err = unpack_optimized_data(&buf, -1).unwrap_err();
    match &err {
        ExtractError::ParseError(m) => {
            assert_eq!(m, "Document count mismatch: expected -1, got 3")
        },
        other => panic!("wrong variant: {:?}", other),
    }
}

#[test]
fn truncation_fails_at_every_offset() {
    let docs = sample_docs();
    let buf = encode_documents(&docs).unwrap();
    for k in 0..buf.len() {
        let err = unpack_optimized_data(&buf[..k], 3).unwrap_err();
        assert!(matches!(err, ExtractError::ParseError(_)), "offset {}", k);
    }
}

#[test]
fn trailing_bytes_are_ignored() {
    let docs = sample_docs();
    let mut buf = encode_documents(&docs).unwrap();
    buf.push(0xaa);
    let out = unpack_optimized_data(&buf, 3).unwrap();
    assert_eq!(out.len(), 3);
}

#[test]
fn invalid_utf8_in_name_fails() {
    // count 1, then a one-byte name that is not valid UTF-8.
    let buf = vec![0, 0, 0, 1, 0, 0, 0, 1, 0xff];
    let err = unpack_optimized_data(&buf, 1).unwrap_err();
    assert!(matches!(err, ExtractError::ParseError(_)));
}

#[test]
fn negative_field_length_fails() {
    // count 1, then a name whose length field is -1.
    let buf = vec![0, 0, 0, 1, 0xff, 0xff, 0xff, 0xff, 0x00];
    let err = unpack_optimized_data(&buf, 1).unwrap_err();
    assert!(matches!(err, ExtractError::ParseError(_)));
}

#[test]
fn negative_declared_count_is_rejected() {
    // A negative declared count is a protocol violation even where the
    // expected count agrees: no documents come back.
    let buf = vec![0xff, 0xff, 0xff, 0xfe];
    let err = unpack_optimized_data(&buf, -2).unwrap_err();
    match &err {
        ExtractError::ParseError(m) => assert_eq!(m, "Invalid document count: -2"),
        other => panic!("wrong variant: {:?}", other),
    }
}

#[test]
fn encoded_layout_is_exact() {
    let docs = vec![doc("hi", "a/b", &[7], None)];
    let buf = encode_documents(&docs).unwrap();
    let expected = vec![
        0, 0, 0, 1, // count
        0, 0, 0, 2, b'h', b'i', // name
        0, 0, 0, 3, b'a', b'/', b'b', // content type
        0, 0, 0, 0, // absent relationship id as empty string
        0, 0, 0, 1, 7, // content
    ];
    assert_eq!(buf, expected);
}

#[test]
fn read_i32_is_big_endian() {
    let data = vec![0, 0, 1, 2];
    let mut pos = 0;
    assert_eq!(read_i32(&data, &mut pos).unwrap(), 258);
    assert_eq!(pos, 4);
}

#[test]
fn read_i32_reads_negative_values() {
    let data = vec![0xff, 0xff, 0xff, 0xfe];
    let mut pos = 0;
    assert_eq!(read_i32(&data, &mut pos).unwrap(), -2);
}

#[test]
fn read_i32_fails_on_short_input() {
    let data = vec![1, 2, 3];
    let mut pos = 0;
    let err = read_i32(&data, &mut pos).unwrap_err();
    assert_eq!(*err.message(), "Failed to read i32: unexpected end of data");
    assert!(matches!(err, ExtractError::ParseError(_)));
    assert_eq!(pos, 0);
}

#[test]
fn read_string_reads_length_prefixed_utf8() {
    let data = vec![0, 0, 0, 2, b'h', b'i', 9, 9];
    let mut pos = 0;
    assert_eq!(read_string(&data, &mut pos).unwrap(), "hi");
    assert_eq!(pos, 6);
}

#[test]
fn read_string_fails_on_invalid_utf8() {
    let data = vec![0, 0, 0, 1, 0xff];
    let mut pos = 0;
    let err = read_string(&data, &mut pos).unwrap_err();
    assert_eq!(*err.message(), "Failed to decode string as UTF-8");
    assert!(matches!(err, ExtractError::ParseError(_)));
    assert_eq!(pos, 0);
}
