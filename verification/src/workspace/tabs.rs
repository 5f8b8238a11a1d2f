//! Moving between tabs and panes: which index the next, previous or chosen
//! tab is, which pane focus cycles to, and where a window split goes.

use vstd::prelude::*;
use crate::protocol::types::SplitDirection;

verus! {

/// The next tab index of a tab in range.
pub open spec fn spec_next(i: int, count: int) -> int {
    (i + 1) % count
}

/// The previous tab index of a tab in range.
pub open spec fn spec_prev(i: int, count: int) -> int {
    if i == 0 {
        count - 1
    } else {
        i - 1
    }
}

/// The tab after `active` among `count` tabs, wrapping to the first; none
/// when there are no tabs.
pub fn next_tab_index(active: usize, count: usize) -> (r: Option<usize>)
    requires
        active < usize::MAX,
    ensures
        count == 0 ==> r is None,
        count > 0 ==> (r matches Some(n) && n == spec_next(active as int, count as int)),
{
    if count == 0 {
        return None;
    }
    Some((active + 1) % count)
}

/// The tab before `active` among `count` tabs, wrapping to the last; none
/// when there are no tabs.
pub fn prev_tab_index(active: usize, count: usize) -> (r: Option<usize>)
    ensures
        count == 0 ==> r is None,
        count > 0 ==> (r matches Some(n) && n == spec_prev(active as int, count as int)),
{
    if count == 0 {
        return None;
    }
    if active == 0 {
        Some(count - 1)
    } else {
        Some(active - 1)
    }
}

/// The tab chosen by number `index` (from 0): the last tab when there are
/// fewer; none when there are no tabs.
pub fn select_tab_index(index: usize, count: usize) -> (r: Option<usize>)
    ensures
        count == 0 ==> r is None,
        count > 0 ==> r == Some(
            if index < count {
                index
            } else {
                (count - 1) as usize
            },
        ),
{
    if count == 0 {
        return None;
    }
    if index < count - 1 {
        Some(index)
    } else {
        Some(count - 1)
    }
}

/// The pane group that focus moves to from `current` among `count`
/// groups, forward or backward with wrap-around; none when there is no
/// other group to move to.
pub fn cycle_focus_index(current: usize, count: usize, forward: bool) -> (r: Option<usize>)
    requires
        current < usize::MAX,
    ensures
        count <= 1 ==> r is None,
        count > 1 && forward ==> (r matches Some(n) && n == spec_next(current as int, count as int)),
        count > 1 && !forward ==> (r matches Some(n) && n == spec_prev(current as int, count as int)),
{
    if count <= 1 {
        return None;
    }
    if forward {
        Some((current + 1) % count)
    } else if current == 0 {
        Some(count - 1)
    } else {
        Some(current - 1)
    }
}

/// Where a split of the whole window puts the new pane: the window's dock
/// has no top side, so a split toward the top goes to the bottom.
pub fn window_split_side(direction: SplitDirection) -> (r: SplitDirection)
    ensures
        r == if direction == SplitDirection::Top {
            SplitDirection::Bottom
        } else {
            direction
        },
{
    match direction {
        SplitDirection::Top => SplitDirection::Bottom,
        d => d,
    }
}

/// Moving to the next tab and back, or back and then forward, returns to
/// the tab one started from; both moves stay among the tabs.
pub proof fn lemma_next_prev_inverse(i: int, count: int)
    requires
        0 <= i < count,
    ensures
        0 <= spec_next(i, count) < count,
        0 <= spec_prev(i, count) < count,
        spec_prev(spec_next(i, count), count) == i,
        spec_next(spec_prev(i, count), count) == i,
{
    if i + 1 == count {
        assert((i + 1) % count == 0) by (nonlinear_arith)
            requires
                i + 1 == count,
                count > 0,
        ;
    } else {
        assert((i + 1) % count == i + 1) by (nonlinear_arith)
            requires
                0 <= i + 1 < count,
        ;
    }
    if i == 0 {
        assert(count % count == 0) by (nonlinear_arith)
            requires
                count > 0,
        ;
    } else {
        assert(i % count == i) by (nonlinear_arith)
            requires
                0 <= i < count,
        ;
    }
}

} // verus!
