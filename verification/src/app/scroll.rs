//! Scrolling a list so that its selected row stays in view.
use vstd::prelude::*;

verus! {

pub open spec fn smaller(left: int, right: int) -> int {
    if left <= right {
        left
    } else {
        right
    }
}

/// The first row in view. It is the requested one, moved no further than it takes to fill the
/// view and to show the selected row. Without a view it is the selected row itself.
pub open spec fn scroll_start(count: int, selected: Option<usize>, requested: int, height: int) -> int {
    if count == 0 {
        0
    } else if height == 0 {
        smaller(
            match selected {
                Some(selected) => selected as int,
                None => requested,
            },
            count - 1,
        )
    } else {
        let last_start = if count > height {
            count - height
        } else {
            0
        };
        let start = smaller(requested, last_start);
        match selected {
            Some(selected) => {
                let row = smaller(selected as int, count - 1);
                if row < start {
                    row
                } else if row >= start + height {
                    row + 1 - height
                } else {
                    start
                }
            },
            None => start,
        }
    }
}

fn smaller_of(left: usize, right: usize) -> (result: usize)
    ensures
        result == smaller(left as int, right as int),
{
    if left <= right {
        left
    } else {
        right
    }
}

pub fn calculate_scroll(
    item_count: usize,
    selected: Option<usize>,
    requested_start: usize,
    viewport_height: usize,
) -> (start: usize)
    ensures
        start == scroll_start(
            item_count as int,
            selected,
            requested_start as int,
            viewport_height as int,
        ),
{
    if item_count == 0 {
        return 0;
    }
    if viewport_height == 0 {
        return match selected {
            Some(selected) => smaller_of(selected, item_count - 1),
            None => smaller_of(requested_start, item_count - 1),
        };
    }
    let last_start: usize = item_count.saturating_sub(viewport_height);
    let start: usize = smaller_of(requested_start, last_start);
    match selected {
        Some(selected) => {
            let row: usize = smaller_of(selected, item_count - 1);
            if row < start {
                row
            } else if row - start >= viewport_height {
                row - viewport_height + 1
            } else {
                start
            }
        },
        None => start,
    }
}

/// A move through a list.
#[derive(Debug, Clone, Copy, PartialEq, Eq, Structural)]
pub struct Step {
    pub forward: bool,
    pub rows: usize,
}

impl Step {
    /// Where the move leads from a row, with `last` as the last row.
    pub open spec fn from(self, row: int, last: int) -> int {
        if self.forward {
            smaller(row + self.rows, last)
        } else if row <= self.rows {
            0
        } else {
            smaller(row - self.rows, last)
        }
    }

    pub fn apply(self, row: usize, last: usize) -> (target: usize)
        ensures
            target == self.from(row as int, last as int),
    {
        if self.forward {
            smaller_of(row.saturating_add(self.rows), last)
        } else {
            smaller_of(row.saturating_sub(self.rows), last)
        }
    }
}

/// The selected row is in view, whatever was requested.
pub proof fn lemma_selected_row_in_view(count: int, selected: usize, requested: int, height: int)
    requires
        0 <= selected < count,
        0 <= requested,
        0 < height,
    ensures
        scroll_start(count, Some(selected), requested, height) <= selected,
        selected < scroll_start(count, Some(selected), requested, height) + height,
{
}

/// The view starts within the list and shows no gap behind its end that the list could fill.
pub proof fn lemma_view_is_filled(count: int, selected: Option<usize>, requested: int, height: int)
    requires
        0 <= count,
        0 <= requested,
        0 <= height,
    ensures
        0 <= scroll_start(count, selected, requested, height),
        count > 0 ==> scroll_start(count, selected, requested, height) < count,
        0 < height <= count ==> scroll_start(count, selected, requested, height) + height <= count,
        0 < count <= height ==> scroll_start(count, selected, requested, height) == 0,
{
}

/// Scrolling again changes nothing.
pub proof fn lemma_scroll_settles(count: int, selected: Option<usize>, requested: int, height: int)
    requires
        0 <= count,
        0 <= requested,
        0 <= height,
    ensures
        scroll_start(count, selected, scroll_start(count, selected, requested, height), height)
            == scroll_start(count, selected, requested, height),
{
}

} // verus!
