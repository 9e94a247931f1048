//! The application facade: errors, terminal policy, output, transient
//! status lines and the context an application runs in.

pub mod error;
pub mod terminal;
pub mod output;
pub mod status;
pub mod app;
