use extractous::config::{
    OfficeParserConfig, PdfOcrStrategy, PdfParserConfig, SetterValue, TesseractOcrConfig,
    ocr_setter_calls, office_setter_calls, pdf_setter_calls,
};
use extractous::embedded::{EmbeddedDocument, EmbeddedExtractResult};

fn doc(name: &str, ctype: &str, content: &[u8]) -> EmbeddedDocument {
    EmbeddedDocument {
        resource_name: name.to_string(),
        content_type: ctype.to_string(),
        content: content.to_vec(),
        embedded_relationship_id: None,
    }
}

#[test]
fn pdf_plan_names_every_setter_in_order() {
    let config = PdfParserConfig {
        extract_inline_images: true,
        extract_unique_inline_images_only: false,
        extract_marked_content: true,
        extract_annotation_text: false,
        ocr_strategy: PdfOcrStrategy::OcrOnly,
    };
    let calls = pdf_setter_calls(&config);
    let names: Vec<&str> = calls.iter().map(|c| c.method.as_str()).collect();
    assert_eq!(
        names,
        vec![
            "setExtractInlineImages",
            "setExtractUniqueInlineImagesOnly",
            "setExtractMarkedContent",
            "setExtractAnnotationText",
            "setOcrStrategy",
        ]
    );
    assert!(matches!(calls[0].value, SetterValue::Bool(true)));
    assert!(matches!(calls[1].value, SetterValue::Bool(false)));
    assert!(matches!(calls[2].value, SetterValue::Bool(true)));
    assert!(matches!(calls[3].value, SetterValue::Bool(false)));
    match &calls[4].value {
        SetterValue::Text(s) => assert_eq!(s, "OCR_ONLY"),
        other => panic!("wrong value: {:?}", other),
    }
}

#[test]
fn strategy_names_are_the_foreign_literals() {
    assert_eq!(PdfOcrStrategy::NoOcr.as_name(), "NO_OCR");
    assert_eq!(PdfOcrStrategy::OcrOnly.as_name(), "OCR_ONLY");
    assert_eq!(PdfOcrStrategy::OcrAndTextExtraction.as_name(), "OCR_AND_TEXT_EXTRACTION");
    assert_eq!(PdfOcrStrategy::Auto.as_name(), "AUTO");
}

#[test]
fn office_plan_names_all_ten_setters() {
    let config = OfficeParserConfig::default();
    let calls = office_setter_calls(&config);
    let names: Vec<&str> = calls.iter().map(|c| c.method.as_str()).collect();
    assert_eq!(
        names,
        vec![
            "setExtractMacros",
            "setIncludeDeletedContent",
            "setIncludeMoveFromContent",
            "setIncludeShapeBasedContent",
            "setIncludeHeadersAndFooters",
            "setIncludeMissingRows",
            "setIncludeSlideNotes",
            "setIncludeSlideMasterContent",
            "setConcatenatePhoneticRuns",
            "setExtractAllAlternativesFromMSG",
        ]
    );
    assert!(calls.iter().all(|c| matches!(c.value, SetterValue::Bool(_))));
}

#[test]
fn ocr_plan_carries_integers_booleans_and_language() {
    let config = TesseractOcrConfig {
        density: 600,
        depth: 8,
        timeout_seconds: 30,
        enable_image_preprocessing: true,
        apply_rotation: false,
        language: "deu".to_string(),
    };
    let calls = ocr_setter_calls(&config);
    assert_eq!(calls.len(), 6);
    assert_eq!(calls[0].method, "setDensity");
    assert!(matches!(calls[0].value, SetterValue::Int(600)));
    assert!(matches!(calls[1].value, SetterValue::Int(8)));
    assert!(matches!(calls[2].value, SetterValue::Int(30)));
    assert!(matches!(calls[3].value, SetterValue::Bool(true)));
    assert!(matches!(calls[4].value, SetterValue::Bool(false)));
    match &calls[5].value {
        SetterValue::Text(s) => assert_eq!(s, "deu"),
        other => panic!("wrong value: {:?}", other),
    }
}

#[test]
fn default_ocr_config_has_documented_values() {
    let config = TesseractOcrConfig::default();
    assert_eq!(config.density, 300);
    assert_eq!(config.depth, 4);
    assert_eq!(config.timeout_seconds, 120);
    assert_eq!(config.language, "eng");
}

#[test]
fn image_judgement_goes_by_mime_prefix() {
    assert!(doc("a", "image/png", &[]).is_image());
    assert!(doc("a", "image/jpeg", &[]).is_image());
    assert!(!doc("a", "application/pdf", &[]).is_image());
    assert!(!doc("a", "imag", &[]).is_image());
}

#[test]
fn document_judgement_covers_known_types_and_text() {
    for t in [
        "application/pdf",
        "application/msword",
        "application/vnd.openxmlformats-officedocument.wordprocessingml.document",
        "application/vnd.ms-excel",
        "application/vnd.openxmlformats-officedocument.spreadsheetml.sheet",
        "application/vnd.ms-powerpoint",
        "application/vnd.openxmlformats-officedocument.presentationml.presentation",
        "text/plain",
        "text/html",
    ] {
        assert!(doc("a", t, &[]).is_document(), "{}", t);
    }
    assert!(!doc("a", "image/png", &[]).is_document());
    assert!(!doc("a", "application/zip", &[]).is_document());
}

#[test]
fn images_and_non_images_partition_in_order() {
    let result = EmbeddedExtractResult {
        documents: vec![
            doc("p1", "image/png", &[1]),
            doc("t1", "text/plain", &[2]),
            doc("p2", "image/gif", &[3]),
        ],
        metadata: Vec::new(),
    };
    let images = result.images();
    assert_eq!(images.len(), 2);
    assert_eq!(images[0].resource_name, "p1");
    assert_eq!(images[1].resource_name, "p2");
    let non_images = result.non_images();
    assert_eq!(non_images.len(), 1);
    assert_eq!(non_images[0].resource_name, "t1");
}

#[test]
fn total_size_sums_content_lengths() {
    let result = EmbeddedExtractResult {
        documents: vec![
            doc("a", "text/plain", &[1, 2, 3]),
            doc("b", "text/plain", &[]),
            doc("c", "text/plain", &[4, 5]),
        ],
        metadata: Vec::new(),
    };
    assert_eq!(result.total_size(), 5);
    assert_eq!(result.documents[0].size(), 3);
}
