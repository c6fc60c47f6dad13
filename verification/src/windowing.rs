//! Pure helpers for viewport/window selection.

use vstd::prelude::*;
use std::ops::Range;

verus! {

/// First visible index: the scroll position, clamped to the last item.
pub open spec fn window_start(total: nat, scroll: nat) -> nat {
    if scroll < total - 1 {
        scroll
    } else {
        (total - 1) as nat
    }
}

/// Compute the visible range for a linear collection.
pub fn visible_range(total: usize, scroll: usize, viewport: usize) -> (r: Range<usize>)
    ensures
        total == 0 || viewport == 0 ==> r.start == 0 && r.end == 0,
        total > 0 && viewport > 0 ==> {
            &&& r.start == window_start(total as nat, scroll as nat)
            &&& r.end == if r.start + viewport < total {
                r.start + viewport
            } else {
                total as int
            }
        },
        r.start <= r.end <= total,
        (r.start as nat, r.end as nat) == visible_range_spec(total as nat, scroll as nat, viewport as nat),
{
    if total == 0 || viewport == 0 {
        return 0..0;
    }
    let last = total - 1;
    let start = if scroll < last {
        scroll
    } else {
        last
    };
    let end = start.saturating_add(viewport);
    let end = if end < total {
        end
    } else {
        total
    };
    start..end
}

/// Compute the visible range plus overscan.
pub fn overscanned_range(total: usize, scroll: usize, viewport: usize, overscan: usize) -> (r: Range<
    usize,
>)
    ensures
        ({
            let v = visible_range_spec(total as nat, scroll as nat, viewport as nat);
            &&& r.start == if v.0 >= overscan {
                v.0 - overscan
            } else {
                0
            }
            &&& r.end == if v.1 + overscan < total {
                v.1 + overscan
            } else {
                total as int
            }
        }),
        r.start <= r.end <= total,
{
    let visible = visible_range(total, scroll, viewport);
    let start = visible.start.saturating_sub(overscan);
    let end = visible.end.saturating_add(overscan);
    let end = if end < total {
        end
    } else {
        total
    };
    start..end
}

/// The visible range as (start, end).
pub open spec fn visible_range_spec(total: nat, scroll: nat, viewport: nat) -> (nat, nat) {
    if total == 0 || viewport == 0 {
        (0, 0)
    } else {
        let s = window_start(total, scroll);
        (s, if s + viewport < total {
            s + viewport
        } else {
            total
        })
    }
}

/// The visible range is the part of the collection a viewport at the
/// scroll position shows: it never passes the end, never holds more than
/// the viewport, and is empty only when there is nothing to show.
pub proof fn lemma_visible_range_bounds(total: nat, scroll: nat, viewport: nat)
    ensures
        visible_range_spec(total, scroll, viewport).0 <= visible_range_spec(total, scroll, viewport).1
            <= total,
        visible_range_spec(total, scroll, viewport).1 - visible_range_spec(total, scroll, viewport).0
            <= viewport,
        total > 0 && viewport > 0 ==> visible_range_spec(total, scroll, viewport).0
            < visible_range_spec(total, scroll, viewport).1,
{
}

/// Overscan contains the visible range.
pub proof fn lemma_overscan_contains_visible(total: nat, scroll: nat, viewport: nat, overscan: nat)
    ensures
        ({
            let v = visible_range_spec(total, scroll, viewport);
            let s = if v.0 >= overscan {
                v.0 - overscan
            } else {
                0
            };
            let e = if v.1 + overscan < total {
                v.1 + overscan
            } else {
                total
            };
            s <= v.0 && v.1 <= e
        }),
{
}

} // verus!
