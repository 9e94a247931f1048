//! Errors reported through the application facade: a stable kind, the
//! message to show, an opaque source and related cleanup failures.

use std::io;
use vstd::prelude::*;

use crate::error_source::{error_source, source_text, ErrorSource};
use crate::text::{push_str, IntoText};

verus! {

/// A stable category of an application error.
#[derive(Clone, Copy, Debug, Eq, PartialEq, Structural)]
#[non_exhaustive]
pub enum ErrorKind {
    /// Command-line arguments could not be parsed.
    Parse,
    /// Terminal output could not be rendered or written.
    Output,
    /// Filesystem or other general I/O failed.
    Io,
    /// An interactive operation failed.
    Interactive,
    /// The user cancelled an operation.
    Cancelled,
    /// Input ended before an operation completed.
    InputEnded,
    /// Interactive input is unavailable under the current terminal policy.
    InteractionUnavailable,
    /// Another prompt already owns the interactive terminal.
    InteractionBusy,
    /// An application-owned source error.
    Application,
    /// An application-defined error.
    Message,
}

/// The application error kind of a prompt error kind.
pub open spec fn prompt_kind(kind: crate::bang::error::ErrorKind) -> ErrorKind {
    match kind {
        crate::bang::error::ErrorKind::Cancelled => ErrorKind::Cancelled,
        crate::bang::error::ErrorKind::InputEnded => ErrorKind::InputEnded,
        crate::bang::error::ErrorKind::InteractionUnavailable => ErrorKind::InteractionUnavailable,
        crate::bang::error::ErrorKind::InteractionBusy => ErrorKind::InteractionBusy,
        _ => ErrorKind::Interactive,
    }
}

/// An error reported through the application facade. Errors of other
/// libraries are kept as opaque sources.
#[derive(Debug)]
pub struct Error {
    kind: ErrorKind,
    message: String,
    source: Option<ErrorSource>,
    related: Vec<Error>,
    /// What the source showed when the error was made; empty without one.
    detail: String,
}

impl Error {
    pub closed spec fn error_kind(&self) -> ErrorKind {
        self.kind
    }

    /// The text the error shows.
    pub closed spec fn text(&self) -> Seq<char> {
        self.message@
    }

    pub closed spec fn has_source(&self) -> bool {
        self.source is Some
    }

    /// The text the source showed, by its `Display`, when the error was
    /// made.
    pub closed spec fn source_detail(&self) -> Seq<char> {
        self.detail@
    }

    pub closed spec fn related_count(&self) -> nat {
        self.related@.len()
    }

    /// An application-defined error showing `message`, with no source.
    pub fn message<T: IntoText>(message: T) -> (error: Self)
        ensures
            error.error_kind() == ErrorKind::Message,
            error.text() == message.text_chars(),
            !error.has_source(),
            error.related_count() == 0,
    {
        Error {
            kind: ErrorKind::Message,
            message: message.into_text(),
            source: None,
            related: Vec::new(),
            detail: String::new(),
        }
    }

    /// An error of the application, showing what its source shows.
    pub fn application<E: std::error::Error + Send + Sync + 'static>(source: E) -> (error: Self)
        ensures
            error.error_kind() == ErrorKind::Application,
            error.has_source(),
            error.related_count() == 0,
    {
        Error::with_source(ErrorKind::Application, source)
    }

    /// An error of the application showing `message`, a colon and what its
    /// source shows.
    pub fn application_context<T: IntoText, E: std::error::Error + Send + Sync + 'static>(
        message: T,
        source: E,
    ) -> (error: Self)
        ensures
            error.error_kind() == ErrorKind::Application,
            error.text() == message.text_chars() + ": "@ + error.source_detail(),
            error.has_source(),
            error.related_count() == 0,
    {
        let mut text = message.into_text();
        let boxed = error_source(source);
        let detail = source_text(&boxed);
        let ghost head = text@;
        push_str(&mut text, ": ");
        proof {
            reveal_strlit(": ");
        }
        push_str(&mut text, detail.as_str());
        assert(text@ =~= head + ": "@ + detail@);
        Error {
            kind: ErrorKind::Application,
            message: text,
            source: Some(boxed),
            related: Vec::new(),
            detail,
        }
    }

    /// An error of `kind` showing what its source shows.
    pub fn with_source<E: std::error::Error + Send + Sync + 'static>(kind: ErrorKind, source: E) -> (error: Self)
        ensures
            error.error_kind() == kind,
            error.text() == error.source_detail(),
            error.has_source(),
            error.related_count() == 0,
    {
        let boxed = error_source(source);
        let message = source_text(&boxed);
        let detail = message.clone();
        Error { kind, message, source: Some(boxed), related: Vec::new(), detail }
    }

    /// An I/O failure, showing what the I/O error shows.
    pub fn from_io(error: io::Error) -> (converted: Self)
        ensures
            converted.error_kind() == ErrorKind::Io,
            converted.has_source(),
            converted.related_count() == 0,
    {
        Error::with_source(ErrorKind::Io, error)
    }

    /// A prompt failure, kept by its kind and text: cancellation, the end of
    /// input and unavailable or busy interaction keep their kind, anything
    /// else is an interactive failure.
    pub fn from_prompt(error: crate::bang::error::Error) -> (converted: Self)
        ensures
            converted.error_kind() == prompt_kind(error.error_kind()),
            converted.text() == error.text(),
            converted.related_count() == 0,
    {
        let kind = match error.kind() {
            crate::bang::error::ErrorKind::Cancelled => ErrorKind::Cancelled,
            crate::bang::error::ErrorKind::InputEnded => ErrorKind::InputEnded,
            crate::bang::error::ErrorKind::InteractionUnavailable => ErrorKind::InteractionUnavailable,
            crate::bang::error::ErrorKind::InteractionBusy => ErrorKind::InteractionBusy,
            _ => ErrorKind::Interactive,
        };
        Error {
            kind,
            message: error.to_string(),
            source: None,
            related: Vec::new(),
            detail: String::new(),
        }
    }

    pub fn kind(&self) -> (kind: ErrorKind)
        ensures
            kind == self.error_kind(),
    {
        self.kind
    }

    /// The text the error shows, as its `Display` would write it.
    pub fn to_string(&self) -> (text: String)
        ensures
            text@ == self.text(),
    {
        self.message.clone()
    }

    pub fn source_error(&self) -> (source: Option<&ErrorSource>)
        ensures
            source is Some <==> self.has_source(),
    {
        match &self.source {
            Some(source) => Some(source),
            None => None,
        }
    }

    /// Failures that happened while cleaning up after the primary error,
    /// which keeps its kind and source.
    pub fn related_errors(&self) -> (related: &[Error])
        ensures
            related@.len() == self.related_count(),
    {
        self.related.as_slice()
    }

    /// The error with a cleanup failure added: its text says that cleanup
    /// also failed, and the failure is kept among the related errors.
    pub fn with_cleanup(self, cleanup: Error) -> (error: Self)
        ensures
            error.error_kind() == self.error_kind(),
            error.has_source() == self.has_source(),
            error.text() == self.text() + "; cleanup also failed: "@ + cleanup.text(),
            error.related_count() == self.related_count() + 1,
    {
        let mut error = self;
        let cleanup_text = cleanup.message.clone();
        push_str(&mut error.message, "; cleanup also failed: ");
        push_str(&mut error.message, cleanup_text.as_str());
        error.related.push(cleanup);
        error
    }
}

} // verus!
