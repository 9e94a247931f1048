//! The read policy installed with raw terminal mode.

use vstd::prelude::*;

verus! {

/// How reads behave in raw mode: the fewest bytes a read waits for and the
/// time it waits, in tenths of a second.
#[derive(Clone, Copy, Debug, Eq, PartialEq, Structural)]
pub struct RawModeOptions {
    minimum_bytes: u8,
    timeout_deciseconds: u8,
}

impl RawModeOptions {
    pub closed spec fn min_bytes(self) -> u8 {
        self.minimum_bytes
    }

    pub closed spec fn timeout(self) -> u8 {
        self.timeout_deciseconds
    }

    /// Block until at least one byte is there: the mode for reads whose
    /// readiness `poll(2)` manages.
    pub fn blocking() -> (options: Self)
        ensures
            options.min_bytes() == 1,
            options.timeout() == 0,
    {
        RawModeOptions { minimum_bytes: 1, timeout_deciseconds: 0 }
    }

    /// Let a read return nothing once the timeout has passed.
    pub fn timed(timeout_deciseconds: u8) -> (options: Self)
        ensures
            options.min_bytes() == 0,
            options.timeout() == timeout_deciseconds,
    {
        RawModeOptions { minimum_bytes: 0, timeout_deciseconds }
    }

    /// Two policies that wait for the same bytes and the same time are the
    /// same policy; so the default policy is the blocking one.
    pub proof fn lemma_policy_is_its_fields(a: RawModeOptions, b: RawModeOptions)
        requires
            a.min_bytes() == b.min_bytes(),
            a.timeout() == b.timeout(),
        ensures
            a == b,
    {
    }

    pub fn minimum_bytes(self) -> (bytes: u8)
        ensures
            bytes == self.min_bytes(),
    {
        self.minimum_bytes
    }

    pub fn timeout_deciseconds(self) -> (timeout: u8)
        ensures
            timeout == self.timeout(),
    {
        self.timeout_deciseconds
    }
}

impl Default for RawModeOptions {
    fn default() -> (options: Self)
        ensures
            options.min_bytes() == 1,
            options.timeout() == 0,
    {
        RawModeOptions::blocking()
    }
}

} // verus!
