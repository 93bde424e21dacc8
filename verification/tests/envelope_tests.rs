use extractous::envelope::{ErrorEnvelope, JStringResult};
use extractous::errors::ExtractError;
use extractous::extract::{OptimizedEnvelope, unpack_envelope};

#[test]
fn status_one_maps_to_io_error() {
    let err = JStringResult::from_parts(
        true,
        1,
        "disk gone".to_string(),
        String::new(),
        Vec::new(),
    )
    .unwrap_err();
    match err {
        ExtractError::IoError(m) => assert_eq!(m, "disk gone"),
        other => panic!("wrong variant: {:?}", other),
    }
}

#[test]
fn status_two_maps_to_parse_error() {
    let err = JStringResult::from_parts(true, 2, "bad file".to_string(), String::new(), Vec::new())
        .unwrap_err();
    match err {
        ExtractError::ParseError(m) => assert_eq!(m, "bad file"),
        other => panic!("wrong variant: {:?}", other),
    }
}

#[test]
fn other_statuses_map_to_unknown() {
    for status in [0u8, 3, 7, 255] {
        let err =
            JStringResult::from_parts(true, status, "odd".to_string(), String::new(), Vec::new())
                .unwrap_err();
        assert!(matches!(err, ExtractError::Unknown(_)), "status {}", status);
    }
}

#[test]
fn success_payload_is_taken_only_without_error() {
    let metadata = vec![("author".to_string(), vec!["someone".to_string()])];
    let res = JStringResult::from_parts(
        false,
        0,
        String::new(),
        "the text".to_string(),
        metadata.clone(),
    )
    .unwrap();
    assert_eq!(res.content, "the text");
    assert_eq!(res.metadata, metadata);
}

#[test]
fn absent_message_gets_synthetic_status_text() {
    let env = OptimizedEnvelope {
        envelope: ErrorEnvelope { code: 9, message: None },
        packed_data: None,
        document_count: 0,
    };
    let err = unpack_envelope(env).unwrap_err();
    match err {
        ExtractError::Unknown(m) => {
            assert_eq!(m, "Optimized embedded extraction failed with code 9")
        },
        other => panic!("wrong variant: {:?}", other),
    }
}

#[test]
fn synthetic_status_text_handles_multi_digit_codes() {
    for (code, text) in [
        (42u8, "Optimized embedded extraction failed with code 42"),
        (100, "Optimized embedded extraction failed with code 100"),
        (255, "Optimized embedded extraction failed with code 255"),
    ] {
        let env = OptimizedEnvelope {
            envelope: ErrorEnvelope { code, message: None },
            packed_data: None,
            document_count: 0,
        };
        let err = unpack_envelope(env).unwrap_err();
        assert_eq!(*err.message(), text.to_string());
    }
}

#[test]
fn supplied_message_is_kept() {
    let env = OptimizedEnvelope {
        envelope: ErrorEnvelope { code: 5, message: Some("native detail".to_string()) },
        packed_data: None,
        document_count: 0,
    };
    let err = unpack_envelope(env).unwrap_err();
    match err {
        ExtractError::Unknown(m) => assert_eq!(m, "native detail"),
        other => panic!("wrong variant: {:?}", other),
    }
}

#[test]
fn envelope_statuses_map_through_the_taxonomy() {
    for (code, is_io, is_parse) in [(1u8, true, false), (2, false, true), (3, false, false)] {
        let env = OptimizedEnvelope {
            envelope: ErrorEnvelope { code, message: Some("why".to_string()) },
            packed_data: None,
            document_count: 0,
        };
        let err = unpack_envelope(env).unwrap_err();
        assert_eq!(matches!(err, ExtractError::IoError(_)), is_io, "code {}", code);
        assert_eq!(matches!(err, ExtractError::ParseError(_)), is_parse, "code {}", code);
        assert_eq!(*err.message(), "why");
    }
}
