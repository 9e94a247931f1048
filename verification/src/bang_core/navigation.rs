//! Moving a selection through a list, with or without wrapping, and keeping
//! a window of rows around it.

use vstd::prelude::*;

use crate::bang_core::event::KeyEvent;

verus! {

/// Where a move by `delta` from `current` lands in a list of `len` rows:
/// nowhere in an empty list; with wrapping, around the ends; without, at the
/// nearer end. A position past the end counts as the last row.
pub open spec fn moved_index(current: int, len: int, delta: int, wrap: bool) -> Option<int> {
    if len <= 0 {
        None
    } else {
        let from = if current < len - 1 {
            current
        } else {
            len - 1
        };
        if wrap {
            if len > isize::MAX {
                None
            } else {
                Some((from + delta) % len)
            }
        } else {
            let target = from + delta;
            Some(
                if target < 0 {
                    0
                } else if target > len - 1 {
                    len - 1
                } else {
                    target
                },
            )
        }
    }
}

/// Move a selection by `delta` rows.
pub fn move_index(current: usize, len: usize, delta: isize, wrap: bool) -> (next: Option<usize>)
    ensures
        match moved_index(current as int, len as int, delta as int, wrap) {
            Some(i) => next == Some(i as usize) && 0 <= i < len,
            None => next is None,
        },
{
    if len == 0 {
        return None;
    }
    let from: usize = if current < len - 1 {
        current
    } else {
        len - 1
    };
    if wrap {
        if len > isize::MAX as usize {
            return None;
        }
        let target: i128 = from as i128 + delta as i128;
        let size: u128 = len as u128;
        let r: u128 = if target >= 0 {
            let t: u128 = target as u128;
            let m: u128 = t % size;
            proof {
                vstd::arithmetic::div_mod::lemma_fundamental_div_mod(t as int, size as int);
                assert(m == (from + delta) % (len as int));
            }
            m
        } else {
            let k: u128 = (-target) as u128;
            let m: u128 = k % size;
            proof {
                vstd::arithmetic::div_mod::lemma_fundamental_div_mod(k as int, size as int);
                let q = (k as int) / (size as int);
                if m == 0 {
                    assert(target as int == (-q) * (size as int) + 0) by (nonlinear_arith)
                        requires
                            k as int == (size as int) * q + 0,
                            target as int == -(k as int),
                    ;
                    vstd::arithmetic::div_mod::lemma_fundamental_div_mod_converse(
                        target as int,
                        size as int,
                        -q,
                        0,
                    );
                } else {
                    assert(target as int == (-q - 1) * (size as int) + (size - m)) by (nonlinear_arith)
                        requires
                            k as int == (size as int) * q + m,
                            target as int == -(k as int),
                    ;
                    vstd::arithmetic::div_mod::lemma_fundamental_div_mod_converse(
                        target as int,
                        size as int,
                        -q - 1,
                        (size - m) as int,
                    );
                }
            }
            if m == 0 {
                0
            } else {
                size - m
            }
        };
        return Some(r as usize);
    }
    let target: i128 = from as i128 + delta as i128;
    let next: usize = if target < 0 {
        0
    } else if target > (len - 1) as i128 {
        len - 1
    } else {
        target as usize
    };
    Some(next)
}

/// A page of rows as a signed step.
pub fn visible_delta(value: usize) -> (delta: isize)
    ensures
        value <= isize::MAX ==> delta == value,
        value > isize::MAX ==> delta == isize::MAX,
{
    if value <= isize::MAX as usize {
        value as isize
    } else {
        isize::MAX
    }
}

/// A key pressed without modifiers.
pub fn no_modifiers(key: &KeyEvent) -> (plain: bool)
    ensures
        plain == (key.modifiers.0 == 0),
{
    key.modifiers.bits() == 0
}

/// The first visible row of a window of `visible` rows that keeps
/// `position` in view, moving `top` as little as possible and never past
/// the last full window of `len` rows.
pub open spec fn window_top(position: int, top: int, visible: int, len: int) -> int {
    let moved = if position < top {
        position
    } else if position >= top + visible {
        position + 1 - visible
    } else {
        top
    };
    let max_top = if len > visible {
        len - visible
    } else {
        0
    };
    if moved < max_top {
        moved
    } else {
        max_top
    }
}

/// The window keeps the position in view.
pub proof fn law_window_keeps_position_visible(position: int, top: int, visible: int, len: int)
    requires
        0 <= position < len,
        0 <= top,
        1 <= visible,
    ensures
        window_top(position, top, visible, len) <= position < window_top(position, top, visible, len)
            + visible,
        0 <= window_top(position, top, visible, len),
{
}

/// Compute the window top for a position.
pub fn scroll_window(position: usize, top: usize, visible: usize, len: usize) -> (next: usize)
    requires
        visible >= 1,
    ensures
        next == window_top(position as int, top as int, visible as int, len as int),
{
    let moved: usize = if position < top {
        position
    } else if position - top >= visible {
        position - (visible - 1)
    } else {
        top
    };
    let max_top: usize = if len > visible {
        len - visible
    } else {
        0
    };
    if moved < max_top {
        moved
    } else {
        max_top
    }
}

} // verus!
