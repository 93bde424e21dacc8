//! Parsing configuration records and their marshaling plans.
//!
//! Each record is a flat set of named options, immutable once constructed.
//! Marshaling to the foreign side happens one named setter invocation per
//! field — no bulk transfer is assumed possible across the boundary — so the
//! marshaler here produces the exact ordered sequence of setter calls that
//! the dispatcher must perform, and that sequence is what the contracts pin
//! down.

use vstd::prelude::*;
use vstd::string::StringExecFns;

verus! {

/// The OCR strategy selector transmitted as its canonical name, which must
/// match the foreign side's expected literal values exactly.
#[derive(Debug, Clone, Copy, PartialEq, Eq, Structural)]
pub enum PdfOcrStrategy {
    NoOcr,
    OcrOnly,
    OcrAndTextExtraction,
    Auto,
}

/// The canonical name of an OCR strategy.
pub open spec fn spec_strategy_name(s: PdfOcrStrategy) -> Seq<char> {
    match s {
        PdfOcrStrategy::NoOcr => "NO_OCR"@,
        PdfOcrStrategy::OcrOnly => "OCR_ONLY"@,
        PdfOcrStrategy::OcrAndTextExtraction => "OCR_AND_TEXT_EXTRACTION"@,
        PdfOcrStrategy::Auto => "AUTO"@,
    }
}

impl PdfOcrStrategy {
    /// The canonical name sent across the boundary.
    pub fn as_name(&self) -> (r: String)
        ensures
            r@ == spec_strategy_name(*self),
    {
        match self {
            PdfOcrStrategy::NoOcr => String::from_str("NO_OCR"),
            PdfOcrStrategy::OcrOnly => String::from_str("OCR_ONLY"),
            PdfOcrStrategy::OcrAndTextExtraction => String::from_str("OCR_AND_TEXT_EXTRACTION"),
            PdfOcrStrategy::Auto => String::from_str("AUTO"),
        }
    }
}

/// PDF parsing options.
#[derive(Debug, Clone, Copy)]
pub struct PdfParserConfig {
    pub extract_inline_images: bool,
    pub extract_unique_inline_images_only: bool,
    pub extract_marked_content: bool,
    pub extract_annotation_text: bool,
    pub ocr_strategy: PdfOcrStrategy,
}

impl Default for PdfParserConfig {
    fn default() -> (r: Self)
        ensures
            !r.extract_inline_images,
            !r.extract_unique_inline_images_only,
            !r.extract_marked_content,
            !r.extract_annotation_text,
            r.ocr_strategy == PdfOcrStrategy::Auto,
    {
        PdfParserConfig {
            extract_inline_images: false,
            extract_unique_inline_images_only: false,
            extract_marked_content: false,
            extract_annotation_text: false,
            ocr_strategy: PdfOcrStrategy::Auto,
        }
    }
}

/// Office document parsing options.
#[derive(Debug, Clone, Copy)]
pub struct OfficeParserConfig {
    pub extract_macros: bool,
    pub include_deleted_content: bool,
    pub include_move_from_content: bool,
    pub include_shape_based_content: bool,
    pub include_headers_and_footers: bool,
    pub include_missing_rows: bool,
    pub include_slide_notes: bool,
    pub include_slide_master_content: bool,
    pub concatenate_phonetic_runs: bool,
    pub extract_all_alternatives_from_msg: bool,
}

impl Default for OfficeParserConfig {
    fn default() -> (r: Self)
        ensures
            !r.extract_macros,
            !r.include_deleted_content,
            !r.include_move_from_content,
            r.include_shape_based_content,
            !r.include_headers_and_footers,
            !r.include_missing_rows,
            r.include_slide_notes,
            !r.include_slide_master_content,
            r.concatenate_phonetic_runs,
            !r.extract_all_alternatives_from_msg,
    {
        OfficeParserConfig {
            extract_macros: false,
            include_deleted_content: false,
            include_move_from_content: false,
            include_shape_based_content: true,
            include_headers_and_footers: false,
            include_missing_rows: false,
            include_slide_notes: true,
            include_slide_master_content: false,
            concatenate_phonetic_runs: true,
            extract_all_alternatives_from_msg: false,
        }
    }
}

/// OCR engine options.
#[derive(Debug, Clone)]
pub struct TesseractOcrConfig {
    pub density: i32,
    pub depth: i32,
    pub timeout_seconds: i32,
    pub enable_image_preprocessing: bool,
    pub apply_rotation: bool,
    pub language: String,
}

impl Default for TesseractOcrConfig {
    fn default() -> (r: Self)
        ensures
            r.density == 300,
            r.depth == 4,
            r.timeout_seconds == 120,
            !r.enable_image_preprocessing,
            !r.apply_rotation,
            r.language@ == "eng"@,
    {
        TesseractOcrConfig {
            density: 300,
            depth: 4,
            timeout_seconds: 120,
            enable_image_preprocessing: false,
            apply_rotation: false,
            language: String::from_str("eng"),
        }
    }
}

/// A value handed to one foreign setter.
#[derive(Debug, Clone)]
pub enum SetterValue {
    Bool(bool),
    Int(i32),
    Text(String),
}

/// One named setter invocation on a foreign configuration object.
#[derive(Debug, Clone)]
pub struct SetterCall {
    /// The foreign method's name; the identifier must already exist on the
    /// other side, and a missing one is an unrecoverable setup error.
    pub method: String,
    /// The value to pass.
    pub value: SetterValue,
}

fn setter_bool(name: &str, v: bool) -> (r: SetterCall)
    ensures
        r.method@ == name@,
        r.value == SetterValue::Bool(v),
{
    SetterCall { method: String::from_str(name), value: SetterValue::Bool(v) }
}

fn setter_int(name: &str, v: i32) -> (r: SetterCall)
    ensures
        r.method@ == name@,
        r.value == SetterValue::Int(v),
{
    SetterCall { method: String::from_str(name), value: SetterValue::Int(v) }
}

fn setter_text(name: &str, v: String) -> (r: SetterCall)
    ensures
        r.method@ == name@,
        r.value matches SetterValue::Text(s) && s == v,
{
    SetterCall { method: String::from_str(name), value: SetterValue::Text(v) }
}

/// The ordered setter invocations that marshal a PDF configuration: one
/// dispatch per field, the strategy selector as its canonical name.
pub fn pdf_setter_calls(config: &PdfParserConfig) -> (r: Vec<SetterCall>)
    ensures
        r@.len() == 5,
        r@[0].method@ == "setExtractInlineImages"@,
        r@[0].value == SetterValue::Bool(config.extract_inline_images),
        r@[1].method@ == "setExtractUniqueInlineImagesOnly"@,
        r@[1].value == SetterValue::Bool(config.extract_unique_inline_images_only),
        r@[2].method@ == "setExtractMarkedContent"@,
        r@[2].value == SetterValue::Bool(config.extract_marked_content),
        r@[3].method@ == "setExtractAnnotationText"@,
        r@[3].value == SetterValue::Bool(config.extract_annotation_text),
        r@[4].method@ == "setOcrStrategy"@,
        r@[4].value matches SetterValue::Text(s) && s@ == spec_strategy_name(config.ocr_strategy),
{
    let mut calls: Vec<SetterCall> = Vec::new();
    calls.push(setter_bool("setExtractInlineImages", config.extract_inline_images));
    calls.push(
        setter_bool("setExtractUniqueInlineImagesOnly", config.extract_unique_inline_images_only),
    );
    calls.push(setter_bool("setExtractMarkedContent", config.extract_marked_content));
    calls.push(setter_bool("setExtractAnnotationText", config.extract_annotation_text));
    calls.push(setter_text("setOcrStrategy", config.ocr_strategy.as_name()));
    calls
}

/// The ordered setter invocations that marshal an Office configuration: one
/// dispatch per field.
pub fn office_setter_calls(config: &OfficeParserConfig) -> (r: Vec<SetterCall>)
    ensures
        r@.len() == 10,
        r@[0].method@ == "setExtractMacros"@,
        r@[0].value == SetterValue::Bool(config.extract_macros),
        r@[1].method@ == "setIncludeDeletedContent"@,
        r@[1].value == SetterValue::Bool(config.include_deleted_content),
        r@[2].method@ == "setIncludeMoveFromContent"@,
        r@[2].value == SetterValue::Bool(config.include_move_from_content),
        r@[3].method@ == "setIncludeShapeBasedContent"@,
        r@[3].value == SetterValue::Bool(config.include_shape_based_content),
        r@[4].method@ == "setIncludeHeadersAndFooters"@,
        r@[4].value == SetterValue::Bool(config.include_headers_and_footers),
        r@[5].method@ == "setIncludeMissingRows"@,
        r@[5].value == SetterValue::Bool(config.include_missing_rows),
        r@[6].method@ == "setIncludeSlideNotes"@,
        r@[6].value == SetterValue::Bool(config.include_slide_notes),
        r@[7].method@ == "setIncludeSlideMasterContent"@,
        r@[7].value == SetterValue::Bool(config.include_slide_master_content),
        r@[8].method@ == "setConcatenatePhoneticRuns"@,
        r@[8].value == SetterValue::Bool(config.concatenate_phonetic_runs),
        r@[9].method@ == "setExtractAllAlternativesFromMSG"@,
        r@[9].value == SetterValue::Bool(config.extract_all_alternatives_from_msg),
{
    let mut calls: Vec<SetterCall> = Vec::new();
    calls.push(setter_bool("setExtractMacros", config.extract_macros));
    calls.push(setter_bool("setIncludeDeletedContent", config.include_deleted_content));
    calls.push(setter_bool("setIncludeMoveFromContent", config.include_move_from_content));
    calls.push(setter_bool("setIncludeShapeBasedContent", config.include_shape_based_content));
    calls.push(setter_bool("setIncludeHeadersAndFooters", config.include_headers_and_footers));
    calls.push(setter_bool("setIncludeMissingRows", config.include_missing_rows));
    calls.push(setter_bool("setIncludeSlideNotes", config.include_slide_notes));
    calls.push(setter_bool("setIncludeSlideMasterContent", config.include_slide_master_content));
    calls.push(setter_bool("setConcatenatePhoneticRuns", config.concatenate_phonetic_runs));
    calls.push(
        setter_bool("setExtractAllAlternativesFromMSG", config.extract_all_alternatives_from_msg),
    );
    calls
}

/// The ordered setter invocations that marshal an OCR configuration: one
/// dispatch per field, the language as its literal text.
pub fn ocr_setter_calls(config: &TesseractOcrConfig) -> (r: Vec<SetterCall>)
    ensures
        r@.len() == 6,
        r@[0].method@ == "setDensity"@,
        r@[0].value == SetterValue::Int(config.density),
        r@[1].method@ == "setDepth"@,
        r@[1].value == SetterValue::Int(config.depth),
        r@[2].method@ == "setTimeoutSeconds"@,
        r@[2].value == SetterValue::Int(config.timeout_seconds),
        r@[3].method@ == "setEnableImagePreprocessing"@,
        r@[3].value == SetterValue::Bool(config.enable_image_preprocessing),
        r@[4].method@ == "setApplyRotation"@,
        r@[4].value == SetterValue::Bool(config.apply_rotation),
        r@[5].method@ == "setLanguage"@,
        r@[5].value matches SetterValue::Text(s) && s@ == config.language@,
{
    let mut calls: Vec<SetterCall> = Vec::new();
    calls.push(setter_int("setDensity", config.density));
    calls.push(setter_int("setDepth", config.depth));
    calls.push(setter_int("setTimeoutSeconds", config.timeout_seconds));
    calls.push(setter_bool("setEnableImagePreprocessing", config.enable_image_preprocessing));
    calls.push(setter_bool("setApplyRotation", config.apply_rotation));
    calls.push(setter_text("setLanguage", config.language.clone()));
    calls
}

} // verus!
