//! Errors of other libraries kept as opaque sources of the library's errors.

use vstd::prelude::*;

verus! {

/// An error of another library, held behind its `std::error::Error` object.
/// Verus cannot see a `dyn Error` object, so the holder is opaque.
#[verifier::external_body]
#[derive(Debug)]
pub struct ErrorSource {
    inner: Box<dyn std::error::Error + Send + Sync + 'static>,
}

/// Box an error as a source. Nothing is stated of it.
#[verifier::external_body]
pub fn error_source<E: std::error::Error + Send + Sync + 'static>(error: E) -> (source: ErrorSource) {
    ErrorSource { inner: Box::new(error) }
}

/// The message of a source as its `Display` writes it. Nothing is stated of
/// the text.
#[verifier::external_body]
pub fn source_text(source: &ErrorSource) -> (text: String) {
    source.inner.to_string()
}

} // verus!
