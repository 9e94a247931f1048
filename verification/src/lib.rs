//! Verified core of a terminal prompt toolkit: widget state machines, a
//! terminal byte decoder, screen-mode negotiation, typed prompt resolution
//! and the application output policy.

pub mod bang_core;
pub mod terminal;
pub mod text;
pub mod io_error;
pub mod error_source;
pub mod climax;
pub mod bang;
pub mod cli;
pub mod live_session;
pub mod overlay;
pub mod attr;
