//! Errors of a prompt interaction.

use vstd::prelude::*;

use crate::error_source::{error_source, source_text, ErrorSource};
use crate::live_session::LiveSessionError;
use crate::text::{push_str, IntoText};

verus! {

/// A broad category of prompt failure.
#[derive(Clone, Copy, Debug, Eq, PartialEq, Structural)]
#[non_exhaustive]
pub enum ErrorKind {
    Cancelled,
    InputEnded,
    InteractionBusy,
    InteractionUnavailable,
    InvalidConfiguration,
    Terminal,
    UnexpectedValue,
}

/// An error of a prompt. Errors of other libraries stay opaque sources.
#[derive(Debug)]
pub struct Error {
    kind: ErrorKind,
    message: String,
    source: Option<ErrorSource>,
}

/// The prompt error kind of a live session failure, by its primary error:
/// an unavailable terminal, a cancellation and the end of input keep their
/// meaning, anything else is a terminal failure.
pub open spec fn live_kind(error: LiveSessionError) -> ErrorKind {
    let primary = match error {
        LiveSessionError::Cleanup { primary: Some(p), .. } => *p,
        _ => error,
    };
    match primary {
        LiveSessionError::Unavailable => ErrorKind::InteractionUnavailable,
        LiveSessionError::Cancelled => ErrorKind::Cancelled,
        LiveSessionError::InputEnded => ErrorKind::InputEnded,
        _ => ErrorKind::Terminal,
    }
}

/// The text of an unexpected value error.
pub open spec fn unexpected_message(expected: Seq<char>) -> Seq<char> {
    "prompt returned an unexpected value; expected "@ + expected
}

impl Error {
    pub closed spec fn error_kind(&self) -> ErrorKind {
        self.kind
    }

    pub closed spec fn text(&self) -> Seq<char> {
        self.message@
    }

    pub closed spec fn has_source(&self) -> bool {
        self.source is Some
    }

    pub fn kind(&self) -> (kind: ErrorKind)
        ensures
            kind == self.error_kind(),
    {
        self.kind
    }

    /// The text the error shows, as its `Display` would write it.
    pub fn to_string(&self) -> (text: String)
        ensures
            text@ == self.text(),
    {
        self.message.clone()
    }

    pub fn source_error(&self) -> (source: Option<&ErrorSource>)
        ensures
            source is Some <==> self.has_source(),
    {
        match &self.source {
            Some(source) => Some(source),
            None => None,
        }
    }

    /// A prompt submitted something other than what was expected.
    pub fn unexpected(expected: &str) -> (error: Self)
        ensures
            error.error_kind() == ErrorKind::UnexpectedValue,
            error.text() == unexpected_message(expected@),
            !error.has_source(),
    {
        let mut message = "prompt returned an unexpected value; expected ".to_owned();
        push_str(&mut message, expected);
        Error { kind: ErrorKind::UnexpectedValue, message, source: None }
    }

    pub fn invalid_configuration<T: IntoText>(message: T) -> (error: Self)
        ensures
            error.error_kind() == ErrorKind::InvalidConfiguration,
            error.text() == message.text_chars(),
            !error.has_source(),
    {
        Error { kind: ErrorKind::InvalidConfiguration, message: message.into_text(), source: None }
    }

    /// A live session failure, showing the session error's message.
    pub fn from_live(error: LiveSessionError) -> (converted: Self)
        ensures
            converted.error_kind() == live_kind(error),
            !converted.has_source(),
    {
        let kind = match error.primary() {
            Some(primary) => match primary {
                LiveSessionError::Unavailable => ErrorKind::InteractionUnavailable,
                LiveSessionError::Cancelled => ErrorKind::Cancelled,
                LiveSessionError::InputEnded => ErrorKind::InputEnded,
                _ => ErrorKind::Terminal,
            },
            None => match &error {
                LiveSessionError::Unavailable => ErrorKind::InteractionUnavailable,
                LiveSessionError::Cancelled => ErrorKind::Cancelled,
                LiveSessionError::InputEnded => ErrorKind::InputEnded,
                _ => ErrorKind::Terminal,
            },
        };
        let message = error.message();
        Error { kind, message, source: None }
    }

    pub fn cancelled() -> (error: Self)
        ensures
            error.error_kind() == ErrorKind::Cancelled,
            error.text() == "prompt was cancelled"@,
            !error.has_source(),
    {
        Error { kind: ErrorKind::Cancelled, message: "prompt was cancelled".to_owned(), source: None }
    }

    pub fn input_ended() -> (error: Self)
        ensures
            error.error_kind() == ErrorKind::InputEnded,
            error.text() == "input ended before the prompt was submitted"@,
            !error.has_source(),
    {
        Error {
            kind: ErrorKind::InputEnded,
            message: "input ended before the prompt was submitted".to_owned(),
            source: None,
        }
    }

    pub fn interaction_busy() -> (error: Self)
        ensures
            error.error_kind() == ErrorKind::InteractionBusy,
            error.text() == "another interaction already owns the terminal"@,
            !error.has_source(),
    {
        Error {
            kind: ErrorKind::InteractionBusy,
            message: "another interaction already owns the terminal".to_owned(),
            source: None,
        }
    }

    pub fn interaction_unavailable() -> (error: Self)
        ensures
            error.error_kind() == ErrorKind::InteractionUnavailable,
            error.text() == "interactive terminal input is unavailable"@,
            !error.has_source(),
    {
        Error {
            kind: ErrorKind::InteractionUnavailable,
            message: "interactive terminal input is unavailable".to_owned(),
            source: None,
        }
    }

    /// A terminal lifecycle or rendering failure, showing what its source
    /// shows.
    pub fn terminal<E: std::error::Error + Send + Sync + 'static>(source: E) -> (error: Self)
        ensures
            error.error_kind() == ErrorKind::Terminal,
            error.has_source(),
    {
        let boxed = error_source(source);
        let message = source_text(&boxed);
        Error { kind: ErrorKind::Terminal, message, source: Some(boxed) }
    }
}

} // verus!
