//! Widget state and interaction machinery.

pub mod ids;
pub mod event;
pub mod value;
pub mod render;
pub mod widget;
pub mod action;
pub mod output;
pub mod text_input;
pub mod navigation;
pub mod select;
pub mod search_select;
pub mod review;
pub mod date_picker;
pub mod form;
pub mod session;
