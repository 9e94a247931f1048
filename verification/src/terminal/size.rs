//! The size of a terminal viewport.

use vstd::prelude::*;

verus! {

/// A viewport of `cols` columns and `rows` rows.
#[derive(Clone, Copy, Debug, Eq, PartialEq, Structural)]
pub struct TerminalSize {
    pub cols: u16,
    pub rows: u16,
}

/// The size a terminal reported, unless it reported a zero-sized viewport.
pub fn terminal_size_from_parts(cols: u16, rows: u16) -> (size: Option<TerminalSize>)
    ensures
        size is None <==> cols == 0 || rows == 0,
        size matches Some(s) ==> s == (TerminalSize { cols, rows }),
{
    if cols == 0 || rows == 0 {
        None
    } else {
        Some(TerminalSize { cols, rows })
    }
}

} // verus!
