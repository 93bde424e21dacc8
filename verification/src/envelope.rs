//! The shared error-envelope protocol.
//!
//! Every foreign operation returns an object that is checked for error
//! status before any payload accessor is touched: payload accessors are
//! undefined when the call failed on the foreign side.  A nonzero status is
//! mapped through the taxonomy of [`crate::errors`]; a missing message is
//! replaced by a synthetic one that names the status.

use vstd::prelude::*;

use crate::embedded::Metadata;
use crate::errors::{
    ExtractError, ExtractResult, spec_decimal, spec_status_error, status_error, synthetic_message,
};

verus! {

/// The error half of every foreign result: code 0 means success; a nonzero
/// code should come with a message, but the message may be absent and a
/// synthetic one is then substituted by the caller.
#[derive(Debug, Clone)]
pub struct ErrorEnvelope {
    /// 0 on success; 1 an I/O failure, 2 a parse failure, anything else
    /// unknown.
    pub code: u8,
    /// The foreign-side message, where one was supplied.
    pub message: Option<String>,
}

/// The message that a failed envelope resolves to: its own message where
/// present, else the synthetic one built from `prefix` and the code.
pub open spec fn spec_resolved_message(env: ErrorEnvelope, prefix: Seq<char>) -> Seq<char> {
    match env.message {
        Some(m) => m@,
        None => prefix + spec_decimal(env.code as nat),
    }
}

impl ErrorEnvelope {
    /// The message of a failed envelope, substituting the synthetic
    /// status-naming message where the foreign side supplied none.
    pub fn resolve_message(&self, prefix: &str) -> (r: String)
        ensures
            r@ == spec_resolved_message(*self, prefix@),
    {
        match &self.message {
            Some(m) => m.clone(),
            None => synthetic_message(prefix, self.code),
        }
    }
}

/// Applies the envelope protocol shared by every foreign operation: the
/// error flag is checked before any payload accessor may be touched.
/// Success exactly when no error is reported; a reported error is mapped
/// through the status taxonomy with its message carried through.
pub fn check_error_status(is_error: bool, status: u8, message: String) -> (r: ExtractResult<()>)
    ensures
        match r {
            Ok(u) => !is_error,
            Err(e) => is_error && spec_status_error(status, message@, e),
        },
{
    if is_error {
        Err(status_error(status, message))
    } else {
        Ok(())
    }
}

/// The unmarshaled result of a string-returning foreign operation.
#[derive(Debug)]
pub struct JStringResult {
    /// The extracted text.
    pub content: String,
    /// Metadata of the parsed document.
    pub metadata: Metadata,
}

impl JStringResult {
    /// Applies the envelope protocol to the parts read from a foreign
    /// string result.  The success payload is taken only when the foreign
    /// side reported no error; a reported error is mapped through the status
    /// taxonomy with its message carried through.
    pub fn from_parts(
        is_error: bool,
        status: u8,
        message: String,
        content: String,
        metadata: Metadata,
    ) -> (r: ExtractResult<JStringResult>)
        ensures
            match r {
                Ok(res) => !is_error && res.content == content && res.metadata == metadata,
                Err(e) => is_error && spec_status_error(status, message@, e),
            },
    {
        match check_error_status(is_error, status, message) {
            Ok(_) => Ok(JStringResult { content, metadata }),
            Err(e) => Err(e),
        }
    }
}

} // verus!
