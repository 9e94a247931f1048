//! Translation of terminal byte streams into input events, and the terminal
//! mode negotiation around an interactive session.

pub mod decoder;
pub mod screen;
pub mod mode;
pub mod size;
pub mod signal;
pub mod runner;
pub mod events;
pub mod chunking;
pub mod polling;
