//! Failures seen while restoring process signal handlers.

use std::io;
use vstd::prelude::*;

use crate::terminal::screen::join_error_texts;
use crate::text::join_with;

verus! {

/// Several failures seen while restoring process signal handlers.
#[derive(Debug)]
pub struct SignalFailures {
    failures: Vec<io::Error>,
}

impl SignalFailures {
    pub closed spec fn errors(&self) -> Seq<io::Error> {
        self.failures@
    }

    /// The failures, in the order they happened.
    pub fn new(failures: Vec<io::Error>) -> (set: Self)
        ensures
            set.errors() == failures@,
    {
        SignalFailures { failures }
    }

    pub fn failures(&self) -> (failures: &[io::Error])
        ensures
            failures@ == self.errors(),
    {
        self.failures.as_slice()
    }

    /// The failures' messages joined by `"; "`.
    pub fn message(&self) -> (text: String)
        ensures
            exists|parts: Seq<Seq<char>>| parts.len() == self.errors().len() && text@ == join_with(parts, "; "@),
    {
        join_error_texts(&self.failures)
    }
}

} // verus!
