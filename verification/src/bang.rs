//! Typed prompts over the widgets: prompt errors, configurations, outcomes
//! and the resolution of a submitted value into the caller's values, and
//! the drivers that run them.

pub mod advanced;
pub mod error;
pub mod interaction;
pub mod prompt;
pub mod typed;
