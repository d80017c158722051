//! The viewport scroller: which half-open window [start, end) of a
//! directory listing is visible, given the selected index, the visible
//! row count, and a lookahead margin that keeps the selection away from
//! the window's edges until the listing boundary forces it there.

use vstd::prelude::*;

verus! {

/// The lookahead margin the browser uses.
pub const DEFAULT_MARGIN: usize = 8;

/// First visible row of the window, by the scroller's branch order:
/// whole listing fits; near the top; near the bottom; or centred with
/// the margin above the selection.
pub open spec fn window_start(len: int, idx: int, rows: int, margin: int) -> int {
    if rows >= len {
        0
    } else if idx <= margin {
        0
    } else if idx + rows >= len + margin {
        len - rows
    } else {
        idx - margin
    }
}

/// One past the last visible row of the window.
pub open spec fn window_end(len: int, idx: int, rows: int, margin: int) -> int {
    if rows >= len {
        len
    } else if idx <= margin {
        rows
    } else if idx + rows >= len + margin {
        len
    } else {
        idx - margin + rows
    }
}

/// Computes the visible window over a listing of `len` entries with the
/// selection at `idx`. An empty listing has no window: the caller renders
/// its empty-state message instead.
pub fn find_window(len: usize, idx: usize, rows: usize, margin: usize) -> (w: Option<
    (usize, usize),
>)
    requires
        len == 0 || idx < len,
    ensures
        (len == 0) <==> (w is None),
        w matches Some(se) ==> se.0 as int == window_start(
            len as int,
            idx as int,
            rows as int,
            margin as int,
        ) && se.1 as int == window_end(len as int, idx as int, rows as int, margin as int),
{
    if len == 0 {
        return None;
    }
    if rows >= len {
        Some((0, len))
    } else if idx <= margin {
        Some((0, rows))
    } else if (idx as u128) + (rows as u128) >= (len as u128) + (margin as u128) {
        Some((len - rows, len))
    } else {
        Some((idx - margin, idx - margin + rows))
    }
}

/// Viewport containment: when the margin is smaller than the window, the
/// chosen window always contains the selection, never leaves [0, len],
/// and never shows more than `rows` entries.
pub proof fn lemma_viewport_containment(len: int, idx: int, rows: int, margin: int)
    requires
        0 < len,
        0 <= idx < len,
        1 <= rows,
        0 <= margin < rows,
    ensures
        0 <= window_start(len, idx, rows, margin),
        window_start(len, idx, rows, margin) <= idx,
        idx < window_end(len, idx, rows, margin),
        window_end(len, idx, rows, margin) <= len,
        window_end(len, idx, rows, margin) - window_start(len, idx, rows, margin) <= rows,
{
}

/// Viewport stability: a one-step move of the selection that stays inside
/// the pinned zone at either listing boundary leaves the window unchanged.
pub proof fn lemma_viewport_stability(len: int, idx: int, rows: int, margin: int)
    requires
        0 <= idx,
        idx + 1 < len,
        0 <= margin,
        (idx + 1 <= margin) || (margin < idx && idx + rows >= len + margin),
    ensures
        window_start(len, idx, rows, margin) == window_start(len, idx + 1, rows, margin),
        window_end(len, idx, rows, margin) == window_end(len, idx + 1, rows, margin),
{
}

} // verus!
