//! The command-line front end: a widget described by a configuration or by
//! command arguments, run against scripted input bytes.

pub mod config;
pub mod command;
pub mod args;
