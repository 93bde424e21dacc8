use extractous::codec::encode_documents;
use extractous::config::{OfficeParserConfig, PdfParserConfig, TesseractOcrConfig};
use extractous::embedded::{EmbeddedDocument, EmbeddedExtractResult};
use extractous::envelope::ErrorEnvelope;
use extractous::errors::ExtractError;
use extractous::extract::{
    CollectingSink, ListEnvelope, OptimizedEnvelope, StaticRuntime, deliver_batches,
    extract_embedded_batch, extract_embedded_from_bytes, extract_embedded_from_file,
    extract_embedded_optimized, extract_embedded_streaming,
};

fn doc(name: &str, content: &[u8]) -> EmbeddedDocument {
    EmbeddedDocument {
        resource_name: name.to_string(),
        content_type: "application/octet-stream".to_string(),
        content: content.to_vec(),
        embedded_relationship_id: None,
    }
}

fn runtime_with_packed(docs: &Vec<EmbeddedDocument>, count: i32) -> StaticRuntime {
    let packed = encode_documents(docs).unwrap();
    StaticRuntime {
        list: ListEnvelope {
            envelope: ErrorEnvelope { code: 0, message: None },
            documents: Vec::new(),
            metadata: Vec::new(),
        },
        optimized: OptimizedEnvelope {
            envelope: ErrorEnvelope { code: 0, message: None },
            packed_data: Some(packed),
            document_count: count,
        },
    }
}

fn configs() -> (PdfParserConfig, OfficeParserConfig, TesseractOcrConfig) {
    (PdfParserConfig::default(), OfficeParserConfig::default(), TesseractOcrConfig::default())
}

#[test]
fn optimized_path_unpacks_documents_with_empty_metadata() {
    let docs = vec![doc("a", &[1, 2]), doc("b", &[3])];
    let mut rt = runtime_with_packed(&docs, 2);
    let (pdf, office, ocr) = configs();
    let res = extract_embedded_optimized(&mut rt, "container.docx", &pdf, &office, &ocr).unwrap();
    assert_eq!(res.documents.len(), 2);
    assert_eq!(res.documents[0].resource_name, "a");
    assert_eq!(res.documents[1].content, vec![3]);
    assert!(res.metadata.is_empty());
}

#[test]
fn optimized_path_rejects_count_mismatch() {
    let docs = vec![doc("a", &[1, 2])];
    let mut rt = runtime_with_packed(&docs, 1);
    rt.optimized.document_count = 2;
    let (pdf, office, ocr) = configs();
    let err = extract_embedded_optimized(&mut rt, "f", &pdf, &office, &ocr).unwrap_err();
    assert!(matches!(err, ExtractError::ParseError(_)));
}

#[test]
fn optimized_path_requires_packed_data() {
    let mut rt = runtime_with_packed(&Vec::new(), 0);
    rt.optimized.packed_data = None;
    let (pdf, office, ocr) = configs();
    let err = extract_embedded_optimized(&mut rt, "f", &pdf, &office, &ocr).unwrap_err();
    match err {
        ExtractError::ParseError(m) => {
            assert_eq!(m, "No packed data returned from optimized extraction")
        },
        other => panic!("wrong variant: {:?}", other),
    }
}

#[test]
fn optimized_path_surfaces_foreign_error_through_taxonomy() {
    let mut rt = runtime_with_packed(&Vec::new(), 0);
    rt.optimized.envelope = ErrorEnvelope { code: 1, message: Some("disk gone".to_string()) };
    let (pdf, office, ocr) = configs();
    let err = extract_embedded_optimized(&mut rt, "f", &pdf, &office, &ocr).unwrap_err();
    match err {
        ExtractError::IoError(m) => assert_eq!(m, "disk gone"),
        other => panic!("wrong variant: {:?}", other),
    }
    rt.optimized.envelope = ErrorEnvelope { code: 2, message: Some("bad file".to_string()) };
    let err = extract_embedded_optimized(&mut rt, "f", &pdf, &office, &ocr).unwrap_err();
    assert!(matches!(err, ExtractError::ParseError(_)));
    rt.optimized.envelope = ErrorEnvelope { code: 3, message: Some("boom".to_string()) };
    let err = extract_embedded_optimized(&mut rt, "f", &pdf, &office, &ocr).unwrap_err();
    match err {
        ExtractError::Unknown(m) => assert_eq!(m, "boom"),
        other => panic!("wrong variant: {:?}", other),
    }
}

#[test]
fn list_path_carries_documents_and_metadata() {
    let mut rt = runtime_with_packed(&Vec::new(), 0);
    rt.list.documents = vec![doc("x", &[9])];
    rt.list.metadata = vec![("k".to_string(), vec!["v".to_string()])];
    let (pdf, office, ocr) = configs();
    let res = extract_embedded_from_file(&mut rt, "f", &pdf, &office, &ocr).unwrap();
    assert_eq!(res.documents.len(), 1);
    assert_eq!(res.documents[0].resource_name, "x");
    assert_eq!(res.metadata, vec![("k".to_string(), vec!["v".to_string()])]);
    let res = extract_embedded_from_bytes(&mut rt, &vec![1, 2, 3], &pdf, &office, &ocr).unwrap();
    assert_eq!(res.documents.len(), 1);
}

#[test]
fn list_path_maps_nonzero_code_with_synthetic_text() {
    let mut rt = runtime_with_packed(&Vec::new(), 0);
    rt.list.envelope = ErrorEnvelope { code: 42, message: None };
    let (pdf, office, ocr) = configs();
    let err = extract_embedded_from_file(&mut rt, "f", &pdf, &office, &ocr).unwrap_err();
    assert!(matches!(err, ExtractError::Unknown(_)));
    assert_eq!(*err.message(), "Embedded extraction failed with code 42".to_string());
    let err = extract_embedded_from_bytes(&mut rt, &vec![0], &pdf, &office, &ocr).unwrap_err();
    assert!(matches!(err, ExtractError::Unknown(_)));
    assert_eq!(*err.message(), "Embedded extraction from bytes failed with code 42".to_string());
}

#[test]
fn list_path_status_one_is_an_io_error() {
    let mut rt = runtime_with_packed(&Vec::new(), 0);
    rt.list.envelope = ErrorEnvelope { code: 1, message: None };
    let (pdf, office, ocr) = configs();
    let err = extract_embedded_from_file(&mut rt, "f", &pdf, &office, &ocr).unwrap_err();
    assert!(matches!(err, ExtractError::IoError(_)));
    assert_eq!(*err.message(), "Embedded extraction failed with code 1".to_string());
}

#[test]
fn batch_delegates_to_optimized() {
    let docs = vec![doc("a", &[1]), doc("b", &[2])];
    let mut rt = runtime_with_packed(&docs, 2);
    let (pdf, office, ocr) = configs();
    let res = extract_embedded_batch(&mut rt, "f", &pdf, &office, &ocr).unwrap();
    assert_eq!(res.documents.len(), 2);
    assert!(res.metadata.is_empty());
}

#[test]
fn batches_have_ceiling_count_and_original_order() {
    let docs = vec![doc("1", &[1]), doc("2", &[2]), doc("3", &[3]), doc("4", &[4]), doc("5", &[5])];
    let mut sink = CollectingSink::new();
    deliver_batches(docs, 2, &mut sink).unwrap();
    assert_eq!(sink.batches.len(), 3);
    assert_eq!(sink.batches[0].len(), 2);
    assert_eq!(sink.batches[1].len(), 2);
    assert_eq!(sink.batches[2].len(), 1);
    let names: Vec<String> =
        sink.batches.iter().flatten().map(|d| d.resource_name.clone()).collect();
    assert_eq!(names, vec!["1", "2", "3", "4", "5"]);
}

#[test]
fn batch_size_zero_behaves_like_one() {
    let docs = vec![doc("1", &[1]), doc("2", &[2])];
    let mut sink = CollectingSink::new();
    deliver_batches(docs, 0, &mut sink).unwrap();
    assert_eq!(sink.batches.len(), 2);
    assert_eq!(sink.batches[0].len(), 1);
}

#[test]
fn stop_signal_short_circuits_later_batches() {
    let docs = vec![doc("1", &[1]), doc("2", &[2]), doc("3", &[3]), doc("4", &[4]), doc("5", &[5])];
    let mut sink = CollectingSink::with_stop_after(1);
    deliver_batches(docs, 2, &mut sink).unwrap();
    assert_eq!(sink.batches.len(), 1);
    assert_eq!(sink.batches[0].len(), 2);
    assert_eq!(sink.batches[0][0].resource_name, "1");
    assert_eq!(sink.batches[0][1].resource_name, "2");
}

#[test]
fn three_documents_batch_size_two_end_to_end() {
    // The optimized path with three embedded documents and batch size two:
    // two callback invocations with two and one documents, and the total
    // size over all delivered documents equals the total content length.
    let docs = vec![doc("a", &[1, 2, 3]), doc("b", &[4, 5]), doc("c", &[6, 7, 8, 9])];
    let expected_total: usize = 3 + 2 + 4;
    let mut rt = runtime_with_packed(&docs, 3);
    let (pdf, office, ocr) = configs();
    let mut sink = CollectingSink::new();
    extract_embedded_streaming(&mut rt, "container", &pdf, &office, &ocr, 2, &mut sink).unwrap();
    assert_eq!(sink.batches.len(), 2);
    assert_eq!(sink.batches[0].len(), 2);
    assert_eq!(sink.batches[1].len(), 1);
    let delivered: Vec<EmbeddedDocument> = sink.batches.into_iter().flatten().collect();
    let result = EmbeddedExtractResult { documents: delivered, metadata: Vec::new() };
    assert_eq!(result.total_size(), expected_total);
}

#[test]
fn empty_container_delivers_no_batches() {
    let mut rt = runtime_with_packed(&Vec::new(), 0);
    let (pdf, office, ocr) = configs();
    let mut sink = CollectingSink::new();
    extract_embedded_streaming(&mut rt, "empty", &pdf, &office, &ocr, 4, &mut sink).unwrap();
    assert!(sink.batches.is_empty());
}

#[test]
fn batch_size_larger_than_sequence_gives_one_batch() {
    let docs = vec![doc("1", &[1]), doc("2", &[2])];
    let mut sink = CollectingSink::new();
    deliver_batches(docs, 10, &mut sink).unwrap();
    assert_eq!(sink.batches.len(), 1);
    assert_eq!(sink.batches[0].len(), 2);
}

#[test]
fn streaming_failure_delivers_nothing() {
    let mut rt = runtime_with_packed(&Vec::new(), 0);
    rt.optimized.envelope = ErrorEnvelope { code: 2, message: None };
    let (pdf, office, ocr) = configs();
    let mut sink = CollectingSink::new();
    let err =
        extract_embedded_streaming(&mut rt, "f", &pdf, &office, &ocr, 2, &mut sink).unwrap_err();
    assert!(matches!(err, ExtractError::ParseError(_)));
    assert!(sink.batches.is_empty());
}
