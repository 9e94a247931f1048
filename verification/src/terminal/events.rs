//! What a terminal event source reports, the sources of signals, sizes and
//! time it consults, and its decision on when a size change is an event.

use std::io;
use std::time::Instant;

use vstd::prelude::*;

use crate::bang_core::event::Event;
use crate::terminal::size::TerminalSize;

verus! {

#[verifier::external_type_specification]
#[verifier::external_body]
pub struct ExInstant(std::time::Instant);

/// What polling a terminal yields: an input event, a signal, or the end of
/// input.
#[derive(Debug)]
pub enum TerminalPoll {
    Event(Event),
    Signal(i32),
    End,
}

/// Where signals come from.
pub trait SignalSource {
    fn poll_signal(&mut self) -> Result<Option<i32>, io::Error>;
}

/// Where the terminal size comes from.
pub trait TerminalSizeSource {
    fn terminal_size(&mut self) -> Result<Option<TerminalSize>, io::Error>;
}

/// Where the time comes from.
pub trait Clock {
    fn now(&self) -> Instant;
}

/// A source that never reports a signal.
#[derive(Clone, Copy, Debug, Default)]
pub struct NoSignals;

impl SignalSource for NoSignals {
    fn poll_signal(&mut self) -> (signal: Result<Option<i32>, io::Error>) {
        Ok(None)
    }
}

/// A source that never knows the terminal size.
#[derive(Clone, Copy, Debug, Default)]
pub struct NoTerminalSize;

impl TerminalSizeSource for NoTerminalSize {
    fn terminal_size(&mut self) -> (size: Result<Option<TerminalSize>, io::Error>) {
        Ok(None)
    }
}

/// `Instant::now`. Nothing is stated of the time it returns.
#[verifier::external_body]
fn instant_now() -> Instant {
    Instant::now()
}

/// The system's monotonic clock.
#[derive(Clone, Copy, Debug, Default)]
pub struct SystemClock;

impl Clock for SystemClock {
    fn now(&self) -> Instant {
        instant_now()
    }
}

/// A resize to `size`.
pub fn resize_event(size: TerminalSize) -> (event: Event)
    ensures
        event == (Event::Resize { cols: size.cols, rows: size.rows }),
{
    Event::Resize { cols: size.cols, rows: size.rows }
}

/// The last terminal size seen, to tell a size change.
#[derive(Clone, Copy, Debug, Default)]
pub struct SizeWatch {
    pub last_size: Option<TerminalSize>,
    pub initialized: bool,
}

impl SizeWatch {
    /// Take in the size the source reports now: the first report and every
    /// change are remembered, and a known size among them is a resize event.
    pub fn observe(&mut self, size: Option<TerminalSize>) -> (event: Option<Event>)
        ensures
            !old(self).initialized || size != old(self).last_size ==> final(self).initialized
                && final(self).last_size == size && match size {
                Some(s) => event == Some(Event::Resize { cols: s.cols, rows: s.rows }),
                None => event is None,
            },
            old(self).initialized && size == old(self).last_size ==> *final(self) == *old(self) && event is None,
    {
        if !self.initialized || size != self.last_size {
            self.initialized = true;
            self.last_size = size;
            match size {
                Some(s) => Some(resize_event(s)),
                None => None,
            }
        } else {
            None
        }
    }
}

} // verus!
