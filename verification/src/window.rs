//! Viewport windowing: which slice of a channel's log is visible for a
//! given message-area height and scroll offset, and how the scroll offset
//! is reconciled once per render so the view never shows blank padding.

use vstd::prelude::*;

verus! {

/// The index of the first visible line: the window ends `scroll` lines
/// above the bottom of the log and holds at most `height` lines.
pub open spec fn window_start(n: int, scroll: int, height: int) -> int {
    if height + scroll <= n {
        n - height - scroll
    } else {
        0
    }
}

/// One past the index of the last visible line.
pub open spec fn window_end(n: int, scroll: int, height: int) -> int {
    if window_start(n, scroll, height) + height <= n {
        window_start(n, scroll, height) + height
    } else {
        n
    }
}

/// The scroll offset after a render's reconciliation: when the log is too
/// short for the offset, the offset is clamped down so the window ends at
/// the top of the log rather than above it.
pub open spec fn reconciled(n: int, scroll: int, height: int) -> int {
    if n < height + scroll {
        if height <= n {
            n - height
        } else {
            0
        }
    } else {
        scroll
    }
}

/// The scroll invariant: the offset never goes below zero, never exceeds
/// the log length, and immediately after reconciliation the window fits
/// entirely inside the log whenever the log is at least one window tall.
pub proof fn lemma_scroll_reconciliation(n: int, scroll: int, height: int)
    requires
        0 <= n,
        0 <= scroll,
        0 <= height,
    ensures
        reconciled(n, scroll, height) >= 0,
        reconciled(n, scroll, height) <= n,
        n >= height ==> reconciled(n, scroll, height) + height <= n,
{
}

/// The visible slice of a log, top to bottom: up to `height` lines ending
/// `scroll` lines above the bottom.
pub fn visible_slice(messages: &Vec<String>, scroll: usize, height: usize) -> (r: Vec<String>)
    ensures
        r@ == messages@.subrange(
            window_start(messages@.len() as int, scroll as int, height as int),
            window_end(messages@.len() as int, scroll as int, height as int),
        ),
{
    let n = messages.len();
    let start: usize = if height <= n && scroll <= n - height {
        n - height - scroll
    } else {
        0
    };
    let end: usize = if n - start >= height {
        start + height
    } else {
        n
    };
    let mut r: Vec<String> = Vec::new();
    let mut j: usize = start;
    proof {
        assert(r@ =~= messages@.subrange(start as int, start as int));
    }
    while j < end
        invariant
            start <= j <= end,
            end <= messages@.len(),
            start == window_start(messages@.len() as int, scroll as int, height as int),
            end == window_end(messages@.len() as int, scroll as int, height as int),
            r@ == messages@.subrange(start as int, j as int),
        decreases end - j,
    {
        r.push(messages[j].clone());
        j = j + 1;
        proof {
            assert(r@ =~= messages@.subrange(start as int, j as int));
        }
    }
    r
}

} // verus!
