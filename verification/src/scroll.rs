//! Scroll state: the visible-window offset and the selected row of one
//! table instance.
//!
//! Every operation clamps the offset into
//! `[0, max(0, row_count - visible_rows)]` and the selection into
//! `[0, row_count)` before it returns, so no sequence of operations can
//! leave the state out of range.  Each executable operation returns
//! exactly the state its spec function describes.

use vstd::prelude::*;

verus! {

/// The largest legal scroll offset for a given row count and window
/// height.
pub open spec fn spec_max_offset(row_count: int, visible_rows: int) -> int {
    if row_count > visible_rows {
        row_count - visible_rows
    } else {
        0
    }
}

/// `v` clamped into `[lo, hi]` (`lo` wins when `lo > hi`).
pub open spec fn spec_clamp(v: int, lo: int, hi: int) -> int {
    if v < lo {
        lo
    } else if v > hi {
        hi
    } else {
        v
    }
}

/// The scroll offset and selection of one table instance.
pub struct ScrollState {
    pub scroll_offset: usize,
    pub selected_row: Option<usize>,
}

/// A selection pulled back into `[0, row_count)`, cleared when the
/// table is empty.
pub open spec fn spec_clamp_selection(sel: Option<usize>, row_count: int) -> Option<usize> {
    match sel {
        Some(k) => if row_count <= 0 {
            None
        } else if k < row_count {
            Some(k)
        } else {
            Some((row_count - 1) as usize)
        },
        None => None,
    }
}

/// What re-clamping does: offset back into range, selection onto an
/// existing row.
pub open spec fn spec_reclamp(s: ScrollState, row_count: int, visible_rows: int) -> ScrollState {
    ScrollState {
        scroll_offset: spec_clamp(
            s.scroll_offset as int,
            0,
            spec_max_offset(row_count, visible_rows),
        ) as usize,
        selected_row: spec_clamp_selection(s.selected_row, row_count),
    }
}

/// What scrolling by `delta` does: the offset moves and is clamped,
/// the selection is re-clamped.
pub open spec fn spec_scroll_by(
    s: ScrollState,
    delta: int,
    row_count: int,
    visible_rows: int,
) -> ScrollState {
    ScrollState {
        scroll_offset: spec_clamp(
            s.scroll_offset + delta,
            0,
            spec_max_offset(row_count, visible_rows),
        ) as usize,
        selected_row: spec_clamp_selection(s.selected_row, row_count),
    }
}

/// What jumping home does: top of the table, first row selected.
pub open spec fn spec_home(s: ScrollState, row_count: int) -> ScrollState {
    ScrollState {
        scroll_offset: 0,
        selected_row: if row_count <= 0 {
            None
        } else {
            Some(0usize)
        },
    }
}

/// What jumping to the end does: last window, last row selected.
pub open spec fn spec_end(s: ScrollState, row_count: int, visible_rows: int) -> ScrollState {
    ScrollState {
        scroll_offset: spec_max_offset(row_count, visible_rows) as usize,
        selected_row: if row_count <= 0 {
            None
        } else {
            Some((row_count - 1) as usize)
        },
    }
}

/// What selecting row `k` does: the selection lands on `k`, pulled
/// onto the last row if `k` is past the end, and stays clear in an
/// empty table; the offset is only re-clamped.
pub open spec fn spec_select(
    s: ScrollState,
    k: int,
    row_count: int,
    visible_rows: int,
) -> ScrollState {
    ScrollState {
        scroll_offset: spec_clamp(
            s.scroll_offset as int,
            0,
            spec_max_offset(row_count, visible_rows),
        ) as usize,
        selected_row: if row_count <= 0 {
            None
        } else if k < row_count {
            Some(k as usize)
        } else {
            Some((row_count - 1) as usize)
        },
    }
}

/// What bringing the selection into view does: the window moves the
/// least distance that makes the selected row visible.
pub open spec fn spec_scroll_to_selection(
    s: ScrollState,
    row_count: int,
    visible_rows: int,
) -> ScrollState {
    match s.selected_row {
        Some(k) => ScrollState {
            scroll_offset: if k < s.scroll_offset {
                k as usize
            } else if visible_rows >= 1 && k >= s.scroll_offset + visible_rows {
                (k - visible_rows + 1) as usize
            } else {
                s.scroll_offset
            },
            selected_row: s.selected_row,
        },
        None => s,
    }
}

/// What moving the selection by `delta` does: the selection starts
/// from the current one (or from the top of the window), moves, is
/// clamped to the table, and the window follows it.
pub open spec fn spec_move_selection(
    s: ScrollState,
    delta: int,
    row_count: int,
    visible_rows: int,
) -> ScrollState {
    let r = spec_reclamp(s, row_count, visible_rows);
    if row_count <= 0 {
        r
    } else {
        let sel = match r.selected_row {
            Some(k) => spec_clamp(k + delta, 0, row_count - 1),
            None => spec_clamp(r.scroll_offset as int, 0, row_count - 1),
        };
        spec_scroll_to_selection(
            ScrollState { scroll_offset: r.scroll_offset, selected_row: Some(sel as usize) },
            row_count,
            visible_rows,
        )
    }
}

/// Every scroll operation lands in a state whose offset lies in
/// `[0, max(0, row_count - visible_rows)]` and whose selection names
/// an existing row — so any sequence of operations, however long,
/// keeps the state in range.
pub proof fn lemma_operations_stay_in_range(
    s: ScrollState,
    delta: int,
    k: int,
    row_count: int,
    visible_rows: int,
)
    requires
        0 <= row_count <= usize::MAX,
        0 <= visible_rows <= usize::MAX,
        0 <= k,
    ensures
        spec_reclamp(s, row_count, visible_rows).wf(row_count, visible_rows),
        spec_scroll_by(s, delta, row_count, visible_rows).wf(row_count, visible_rows),
        spec_home(s, row_count).wf(row_count, visible_rows),
        spec_end(s, row_count, visible_rows).wf(row_count, visible_rows),
        spec_select(s, k, row_count, visible_rows).wf(row_count, visible_rows),
        spec_move_selection(s, delta, row_count, visible_rows).wf(row_count, visible_rows),
        s.wf(row_count, visible_rows) ==> spec_scroll_to_selection(
            s,
            row_count,
            visible_rows,
        ).wf(row_count, visible_rows),
{
}

/// Once a row is selected, bringing the selection into view leaves
/// the window containing it:
/// `scroll_offset <= selected < scroll_offset + visible_rows`.
pub proof fn lemma_selection_in_window(s: ScrollState, row_count: int, visible_rows: int)
    requires
        s.wf(row_count, visible_rows),
        visible_rows >= 1,
        s.selected_row is Some,
    ensures
        ({
            let r = spec_scroll_to_selection(s, row_count, visible_rows);
            r.scroll_offset <= s.selected_row->0 < r.scroll_offset + visible_rows
        }),
{
}

impl ScrollState {
    /// The state is in range for a table of `row_count` rows shown in
    /// a window of `visible_rows` rows: the offset never scrolls past
    /// the last window, a selection always names an existing row.
    pub open spec fn wf(self, row_count: int, visible_rows: int) -> bool {
        &&& self.scroll_offset <= spec_max_offset(row_count, visible_rows)
        &&& match self.selected_row {
            Some(k) => k < row_count,
            None => true,
        }
    }

    /// A fresh state: top of the table, nothing selected.
    pub fn new() -> (s: ScrollState)
        ensures
            s.scroll_offset == 0,
            s.selected_row is None,
            forall|rc: int, vis: int| s.wf(rc, vis),
    {
        ScrollState { scroll_offset: 0, selected_row: None }
    }

    /// Re-clamps the state after the row set or the window height
    /// changed.
    pub fn reclamp(&mut self, row_count: usize, visible_rows: usize)
        ensures
            *final(self) == spec_reclamp(*old(self), row_count as int, visible_rows as int),
            final(self).wf(row_count as int, visible_rows as int),
    {
        let max_off: usize = if row_count > visible_rows {
            row_count - visible_rows
        } else {
            0
        };
        if self.scroll_offset > max_off {
            self.scroll_offset = max_off;
        }
        self.selected_row = match self.selected_row {
            Some(k) => {
                if row_count == 0 {
                    None
                } else if k < row_count {
                    Some(k)
                } else {
                    Some(row_count - 1)
                }
            },
            None => None,
        };
    }

    /// Moves the window by `delta` rows, clamped into range.
    pub fn scroll_by(&mut self, delta: i64, row_count: usize, visible_rows: usize)
        ensures
            *final(self) == spec_scroll_by(
                *old(self),
                delta as int,
                row_count as int,
                visible_rows as int,
            ),
            final(self).wf(row_count as int, visible_rows as int),
    {
        let max_off: usize = if row_count > visible_rows {
            row_count - visible_rows
        } else {
            0
        };
        let target: i128 = self.scroll_offset as i128 + delta as i128;
        self.scroll_offset = if target < 0 {
            0
        } else if target > max_off as i128 {
            max_off
        } else {
            target as usize
        };
        self.selected_row = match self.selected_row {
            Some(k) => {
                if row_count == 0 {
                    None
                } else if k < row_count {
                    Some(k)
                } else {
                    Some(row_count - 1)
                }
            },
            None => None,
        };
    }

    /// Scrolls up by one window.
    pub fn page_up(&mut self, row_count: usize, visible_rows: usize)
        requires
            visible_rows <= i64::MAX,
        ensures
            *final(self) == spec_scroll_by(
                *old(self),
                -(visible_rows as int),
                row_count as int,
                visible_rows as int,
            ),
            final(self).wf(row_count as int, visible_rows as int),
    {
        self.scroll_by(-(visible_rows as i64), row_count, visible_rows);
    }

    /// Scrolls down by one window.
    pub fn page_down(&mut self, row_count: usize, visible_rows: usize)
        requires
            visible_rows <= i64::MAX,
        ensures
            *final(self) == spec_scroll_by(
                *old(self),
                visible_rows as int,
                row_count as int,
                visible_rows as int,
            ),
            final(self).wf(row_count as int, visible_rows as int),
    {
        self.scroll_by(visible_rows as i64, row_count, visible_rows);
    }

    /// Jumps to the top and selects the first row, if any.
    pub fn home(&mut self, row_count: usize, visible_rows: usize)
        ensures
            *final(self) == spec_home(*old(self), row_count as int),
            final(self).wf(row_count as int, visible_rows as int),
    {
        self.scroll_offset = 0;
        self.selected_row = if row_count == 0 {
            None
        } else {
            Some(0)
        };
    }

    /// Jumps to the bottom and selects the last row, if any.
    pub fn end(&mut self, row_count: usize, visible_rows: usize)
        ensures
            *final(self) == spec_end(*old(self), row_count as int, visible_rows as int),
            final(self).wf(row_count as int, visible_rows as int),
    {
        self.scroll_offset = if row_count > visible_rows {
            row_count - visible_rows
        } else {
            0
        };
        self.selected_row = if row_count == 0 {
            None
        } else {
            Some(row_count - 1)
        };
    }

    /// Selects row `k` (clamped to the last row); selecting in an
    /// empty table is a no-op that keeps the selection clear.
    pub fn select(&mut self, k: usize, row_count: usize, visible_rows: usize)
        ensures
            *final(self) == spec_select(
                *old(self),
                k as int,
                row_count as int,
                visible_rows as int,
            ),
            final(self).wf(row_count as int, visible_rows as int),
    {
        self.reclamp(row_count, visible_rows);
        self.selected_row = if row_count == 0 {
            None
        } else if k < row_count {
            Some(k)
        } else {
            Some(row_count - 1)
        };
    }

    /// Brings the selected row into the visible window: afterwards
    /// `scroll_offset <= selected < scroll_offset + visible_rows`
    /// whenever a row is selected and the window has any height.
    pub fn scroll_to_selection(&mut self, row_count: usize, visible_rows: usize)
        requires
            old(self).wf(row_count as int, visible_rows as int),
        ensures
            *final(self) == spec_scroll_to_selection(
                *old(self),
                row_count as int,
                visible_rows as int,
            ),
            final(self).wf(row_count as int, visible_rows as int),
            match old(self).selected_row {
                Some(k) => visible_rows >= 1 ==> final(self).scroll_offset <= k
                    && k < final(self).scroll_offset + visible_rows,
                None => true,
            },
    {
        match self.selected_row {
            Some(k) => {
                if k < self.scroll_offset {
                    self.scroll_offset = k;
                } else if visible_rows >= 1 && k >= self.scroll_offset + visible_rows {
                    self.scroll_offset = k - visible_rows + 1;
                }
            },
            None => {},
        }
    }

    /// Moves the selection by `delta` rows, clamped to the table, then
    /// scrolls so the new selection is visible.  With no current
    /// selection the first move lands on the top row of the window;
    /// in an empty table this only re-clamps.
    pub fn move_selection(&mut self, delta: i64, row_count: usize, visible_rows: usize)
        ensures
            *final(self) == spec_move_selection(
                *old(self),
                delta as int,
                row_count as int,
                visible_rows as int,
            ),
            final(self).wf(row_count as int, visible_rows as int),
            row_count >= 1 && visible_rows >= 1 ==> match final(self).selected_row {
                Some(sel) => final(self).scroll_offset <= sel && sel < final(self).scroll_offset
                    + visible_rows,
                None => false,
            },
    {
        self.reclamp(row_count, visible_rows);
        if row_count == 0 {
            return ;
        }
        let sel: usize = match self.selected_row {
            Some(k) => {
                let target: i128 = k as i128 + delta as i128;
                if target < 0 {
                    0
                } else if target > (row_count - 1) as i128 {
                    row_count - 1
                } else {
                    target as usize
                }
            },
            None => {
                if self.scroll_offset < row_count {
                    self.scroll_offset
                } else {
                    row_count - 1
                }
            },
        };
        self.selected_row = Some(sel);
        self.scroll_to_selection(row_count, visible_rows);
    }
}

} // verus!
