//! A bridge between a calling process and an embedded document-parsing
//! runtime that is reached only through typed call dispatch.
//!
//! The bridge marshals typed configuration into foreign-side setter calls,
//! checks the error envelope that every foreign operation returns, decodes
//! the packed binary format used to ship many embedded documents in one
//! round trip, and wraps a foreign incremental-read object behind a byte
//! stream with adaptive buffer growth and a close that runs exactly once.

pub mod errors;
pub mod embedded;
pub mod codec;
pub mod config;
pub mod envelope;
pub mod extract;
pub mod reader;

pub use config::{OfficeParserConfig, PdfOcrStrategy, PdfParserConfig, TesseractOcrConfig};
pub use embedded::{EmbeddedDocument, EmbeddedExtractResult, Metadata};
pub use envelope::{ErrorEnvelope, JStringResult};
pub use errors::{ExtractError, ExtractResult};
pub use extract::{
    extract_embedded_batch, extract_embedded_from_bytes, extract_embedded_from_file,
    extract_embedded_optimized, extract_embedded_streaming,
};
pub use reader::StreamingReader;
