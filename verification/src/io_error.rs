//! I/O errors as values the library carries: std's `io::Error` and
//! `io::ErrorKind`, their messages and the construction of new ones.

use std::io;
use vstd::prelude::*;

verus! {

#[verifier::external_type_specification]
#[verifier::external_body]
pub struct ExIoError(std::io::Error);

#[verifier::external_type_specification]
#[verifier::external_body]
pub struct ExIoErrorKind(std::io::ErrorKind);

/// `io::Error::kind`. Nothing is stated of the kind.
#[verifier::external_body]
pub fn io_error_kind(error: &io::Error) -> (kind: io::ErrorKind) {
    error.kind()
}

/// The message of an error as `Display` writes it. Nothing is stated of the
/// text: for an operating system error it comes from the system.
#[verifier::external_body]
pub fn io_error_text(error: &io::Error) -> (text: String) {
    error.to_string()
}

/// `io::Error::new` with a message.
#[verifier::external_body]
pub fn io_error_new(kind: io::ErrorKind, message: String) -> (error: io::Error) {
    io::Error::new(kind, message)
}

/// `io::Error::other` with a message.
#[verifier::external_body]
pub fn io_error_other(message: String) -> (error: io::Error) {
    io::Error::other(message)
}

/// The kinds of I/O error the library tells apart.
#[derive(Clone, Copy, Debug, PartialEq, Eq, Structural)]
pub enum IoKindClass {
    Unsupported,
    NotConnected,
    Other,
}

/// `io::Error::kind`, told apart as far as the library needs. Nothing is
/// stated of which kind an error has.
#[verifier::external_body]
pub fn io_kind_class(error: &io::Error) -> (class: IoKindClass) {
    match error.kind() {
        io::ErrorKind::Unsupported => IoKindClass::Unsupported,
        io::ErrorKind::NotConnected => IoKindClass::NotConnected,
        _ => IoKindClass::Other,
    }
}

} // verus!
