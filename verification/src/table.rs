//! The disk table widget: the configured column set, the current row
//! snapshot with its sort order, and the per-instance interactive
//! state, composed into event handling and drawing.

use vstd::prelude::*;

use crate::column::{Column, ColumnSizing, wf_columns};
use crate::draw::{build_cells, build_header, spec_cell_text, spec_fit, spec_header_text};
use crate::event::{EventOutcome, KeyInput, MouseInput};
use crate::registry::DiskWidgetState;
use crate::row::Row;
use crate::sort::{sort_permutation, spec_perm_ordered};
use crate::scroll::{
    spec_end, spec_home, spec_move_selection, spec_reclamp, spec_scroll_by, spec_select,
};
use crate::width::alloc_spec;

verus! {

/// A screen rectangle, in terminal cells.
#[derive(Clone, Copy, PartialEq, Eq, Structural, Debug)]
pub struct Rect {
    pub x: u16,
    pub y: u16,
    pub width: u16,
    pub height: u16,
}

impl Rect {
    /// The empty rectangle at the origin.
    pub fn zero() -> (r: Rect)
        ensures
            r == (Rect { x: 0u16, y: 0u16, width: 0u16, height: 0u16 }),
    {
        Rect { x: 0, y: 0, width: 0, height: 0 }
    }
}

/// The widget's sizing preference for the outer layout pass.
#[derive(Clone, Copy, PartialEq, Eq, Structural, Debug)]
pub enum LayoutRule {
    /// Take a share of the free space proportional to `ratio`.
    Expand { ratio: u32 },
    /// Take exactly `length` cells.
    Length { length: u16 },
}

impl Default for LayoutRule {
    /// An even share of the free space.
    fn default() -> (r: Self)
        ensures
            r == (LayoutRule::Expand { ratio: 1u32 }),
    {
        LayoutRule::Expand { ratio: 1 }
    }
}

/// Which borders the widget draws around itself.
#[derive(Clone, Copy, PartialEq, Eq, Structural, Debug)]
pub enum BorderKind {
    /// All four borders.
    All,
    /// Left and right only, as in basic mode.
    Sides,
}

/// The visual description one draw call produces: the fitted header
/// and visible cells, the widths they were fitted to, the selected
/// visible line, and whether the widget has focus.
pub struct DrawGrid {
    pub widths: Vec<u16>,
    pub header: Vec<String>,
    pub cells: Vec<Vec<String>>,
    pub selected: Option<usize>,
    pub focused: bool,
}

/// The content width inside the side borders.
pub open spec fn spec_content_width(w: int) -> int {
    if w > 2 {
        w - 2
    } else {
        0
    }
}

/// The rows of the area that chrome takes up: the header line, plus
/// the top and bottom border when all borders are drawn.
pub open spec fn spec_chrome_rows(b: BorderKind) -> int {
    match b {
        BorderKind::All => 3,
        BorderKind::Sides => 1,
    }
}

/// How many data rows fit in an area of height `h`.
pub open spec fn spec_visible_rows(h: int, b: BorderKind) -> int {
    let ch = spec_chrome_rows(b);
    if h > ch {
        h - ch
    } else {
        0
    }
}

/// The column whose horizontal span contains content offset `x`, for
/// columns laid out left to right at their given widths.
pub open spec fn spec_column_at(ws: Seq<u16>, x: int) -> Option<int>
    decreases ws.len(),
{
    if ws.len() == 0 {
        None
    } else if x < ws[0] {
        Some(0int)
    } else {
        match spec_column_at(ws.drop_first(), x - ws[0]) {
            Some(c) => Some(c + 1),
            None => None,
        }
    }
}

/// A table displaying disk data: seven columns (device, mount point,
/// usage and throughput), sortable and scrollable.
pub struct DiskTable {
    pub columns: Vec<Column>,
    pub rows: Vec<Row>,
    pub order: Vec<usize>,
    pub state: DiskWidgetState,
    pub bounds: Rect,
    pub layout_width: LayoutRule,
    pub layout_height: LayoutRule,
    pub block_border: BorderKind,
}

impl DiskTable {
    /// The widget's internal consistency: well-formed columns, a
    /// width cache that matches them, and an order that is a
    /// permutation of the rows, sorted by the active sort (or the
    /// data layer's order when no sort is active).
    pub open spec fn wf(self) -> bool {
        &&& wf_columns(self.columns@)
        &&& self.state.table_width_state.consistent(self.columns@)
        &&& self.order@.len() == self.rows@.len()
        &&& forall|i: int| 0 <= i < self.order@.len() ==> (#[trigger] self.order@[i]) < self.rows@.len()
        &&& forall|i: int, j: int| 0 <= i < j < self.order@.len() ==> self.order@[i] != self.order@[j]
        &&& match self.state.sort_state.sort_column {
            Some(c) => spec_perm_ordered(
                self.rows@,
                c as int,
                self.state.sort_state.sort_descending,
                self.order@,
            ),
            None => forall|i: int| 0 <= i < self.order@.len() ==> (#[trigger] self.order@[i]) == i,
        }
    }

    /// How many data rows the current bounds show.
    pub open spec fn spec_visible(self) -> int {
        spec_visible_rows(self.bounds.height as int, self.block_border)
    }

    /// Everything but the interactive state and the row order is
    /// unchanged.
    pub open spec fn same_shape(self, other: DiskTable) -> bool {
        &&& self.columns == other.columns
        &&& self.rows == other.rows
        &&& self.bounds == other.bounds
        &&& self.layout_width == other.layout_width
        &&& self.layout_height == other.layout_height
        &&& self.block_border == other.block_border
    }

    /// Sets the width preference.
    pub fn width(self, width: LayoutRule) -> (r: Self)
        ensures
            r == (DiskTable { layout_width: width, ..self }),
    {
        DiskTable { layout_width: width, ..self }
    }

    /// Sets the height preference.
    pub fn height(self, height: LayoutRule) -> (r: Self)
        ensures
            r == (DiskTable { layout_height: height, ..self }),
    {
        DiskTable { layout_height: height, ..self }
    }

    /// In basic mode the widget draws only its side borders.
    pub fn basic_mode(self, basic_mode: bool) -> (r: Self)
        ensures
            basic_mode ==> r == (DiskTable { block_border: BorderKind::Sides, ..self }),
            !basic_mode ==> r == self,
    {
        if basic_mode {
            DiskTable { block_border: BorderKind::Sides, ..self }
        } else {
            self
        }
    }

    /// The widget's width preference, for the outer layout pass.
    pub fn width_rule(&self) -> (r: LayoutRule)
        ensures
            r == self.layout_width,
    {
        self.layout_width
    }

    /// The widget's height preference, for the outer layout pass.
    pub fn height_rule(&self) -> (r: LayoutRule)
        ensures
            r == self.layout_height,
    {
        self.layout_height
    }

    /// The screen area the widget was last laid out in.
    pub fn bounds(&self) -> (r: Rect)
        ensures
            r == self.bounds,
    {
        self.bounds
    }

    /// Records the screen area the outer layout assigned.
    pub fn set_bounds(&mut self, new_bounds: Rect)
        ensures
            *final(self) == (DiskTable { bounds: new_bounds, ..*old(self) }),
    {
        self.bounds = new_bounds;
    }

    /// The widget's display name.
    pub fn get_pretty_name(&self) -> (r: &'static str)
        ensures
            r@ == "Disks"@,
    {
        "Disks"
    }
}

impl Default for DiskTable {
    /// The disk table as configured for the dashboard: flexible
    /// device and mount-point columns, fixed-width usage and
    /// throughput columns, everything sortable, no data yet.
    fn default() -> (s: Self)
        ensures
            s.wf(),
            s.rows@.len() == 0,
            s.columns@.len() == 7,
            s.columns@[0].label@ == "Disk"@ && s.columns@[0].sizing == ColumnSizing::Flex(20u32),
            s.columns@[1].label@ == "Mount"@ && s.columns@[1].sizing == ColumnSizing::Flex(20u32),
            s.columns@[2].label@ == "Used"@ && s.columns@[2].sizing == ColumnSizing::Hard(5u16),
            s.columns@[3].label@ == "Free"@ && s.columns@[3].sizing == ColumnSizing::Hard(6u16),
            s.columns@[4].label@ == "Total"@ && s.columns@[4].sizing == ColumnSizing::Hard(6u16),
            s.columns@[5].label@ == "R/s"@ && s.columns@[5].sizing == ColumnSizing::Hard(7u16),
            s.columns@[6].label@ == "W/s"@ && s.columns@[6].sizing == ColumnSizing::Hard(7u16),
            forall|i: int|
                0 <= i < 7 ==> (#[trigger] s.columns@[i]).min_width == 1 && s.columns@[i].sortable,
            s.state.sort_state.sort_column is None,
            s.state.scroll_state.scroll_offset == 0,
            s.state.scroll_state.selected_row is None,
            s.layout_width == (LayoutRule::Expand { ratio: 1u32 }),
            s.layout_height == (LayoutRule::Expand { ratio: 1u32 }),
            s.block_border == BorderKind::All,
    {
        let mut columns: Vec<Column> = Vec::new();
        columns.push(
            Column {
                label: String::from_str("Disk"),
                sizing: ColumnSizing::Flex(20),
                min_width: 1,
                sortable: true,
            },
        );
        columns.push(
            Column {
                label: String::from_str("Mount"),
                sizing: ColumnSizing::Flex(20),
                min_width: 1,
                sortable: true,
            },
        );
        columns.push(
            Column {
                label: String::from_str("Used"),
                sizing: ColumnSizing::Hard(5),
                min_width: 1,
                sortable: true,
            },
        );
        columns.push(
            Column {
                label: String::from_str("Free"),
                sizing: ColumnSizing::Hard(6),
                min_width: 1,
                sortable: true,
            },
        );
        columns.push(
            Column {
                label: String::from_str("Total"),
                sizing: ColumnSizing::Hard(6),
                min_width: 1,
                sortable: true,
            },
        );
        columns.push(
            Column {
                label: String::from_str("R/s"),
                sizing: ColumnSizing::Hard(7),
                min_width: 1,
                sortable: true,
            },
        );
        columns.push(
            Column {
                label: String::from_str("W/s"),
                sizing: ColumnSizing::Hard(7),
                min_width: 1,
                sortable: true,
            },
        );
        DiskTable {
            columns,
            rows: Vec::new(),
            order: Vec::new(),
            state: DiskWidgetState::init(),
            bounds: Rect::zero(),
            layout_width: LayoutRule::Expand { ratio: 1 },
            layout_height: LayoutRule::Expand { ratio: 1 },
            block_border: BorderKind::All,
        }
    }
}

impl DiskTable {
    /// How many data rows the current bounds show.
    pub fn visible_rows(&self) -> (v: usize)
        ensures
            v as int == self.spec_visible(),
    {
        let chrome: u16 = match self.block_border {
            BorderKind::All => 3,
            BorderKind::Sides => 1,
        };
        if self.bounds.height > chrome {
            (self.bounds.height - chrome) as usize
        } else {
            0
        }
    }

    /// Rebuilds the row order for the current sort state.
    fn resort(&mut self)
        ensures
            final(self).same_shape(*old(self)),
            final(self).state == old(self).state,
            final(self).order@.len() == final(self).rows@.len(),
            forall|i: int|
                0 <= i < final(self).order@.len() ==> (#[trigger] final(self).order@[i]) < final(self).rows@.len(),
            forall|i: int, j: int|
                0 <= i < j < final(self).order@.len() ==> final(self).order@[i] != final(self).order@[j],
            match final(self).state.sort_state.sort_column {
                Some(c) => spec_perm_ordered(
                    final(self).rows@,
                    c as int,
                    final(self).state.sort_state.sort_descending,
                    final(self).order@,
                ),
                None => forall|i: int|
                    0 <= i < final(self).order@.len() ==> (#[trigger] final(self).order@[i]) == i,
            },
    {
        let descending = self.state.sort_state.sort_descending;
        match self.state.sort_state.sort_column {
            Some(c) => {
                self.order = sort_permutation(&self.rows, c, descending);
            },
            None => {
                self.order = identity_order(self.rows.len());
            },
        }
    }

    /// Replaces the row snapshot, re-sorts it under the unchanged
    /// sort state, and pulls scroll and selection back into range for
    /// the new row count.
    pub fn update_data(&mut self, rows: Vec<Row>)
        requires
            old(self).wf(),
        ensures
            final(self).wf(),
            final(self).rows == rows,
            final(self).columns == old(self).columns,
            final(self).bounds == old(self).bounds,
            final(self).block_border == old(self).block_border,
            final(self).state.sort_state == old(self).state.sort_state,
            final(self).state.table_width_state == old(self).state.table_width_state,
            final(self).state.scroll_state == spec_reclamp(
                old(self).state.scroll_state,
                rows@.len() as int,
                old(self).spec_visible(),
            ),
    {
        self.rows = rows;
        self.resort();
        let rc = self.rows.len();
        let vis = self.visible_rows();
        self.state.scroll_state.reclamp(rc, vis);
    }

    /// Toggles the sort on column `column_index` and re-sorts: a
    /// first toggle sorts it ascending, a repeated toggle flips the
    /// direction, and an unknown or unsortable column changes
    /// nothing.
    pub fn toggle_sort(&mut self, column_index: usize)
        requires
            old(self).wf(),
        ensures
            final(self).wf(),
            final(self).same_shape(*old(self)),
            final(self).state.scroll_state == old(self).state.scroll_state,
            final(self).state.table_width_state == old(self).state.table_width_state,
            final(self).state.sort_state == old(self).state.sort_state.spec_toggle(
                column_index,
                old(self).columns@,
            ),
    {
        let columns = &self.columns;
        self.state.sort_state.toggle(column_index, columns);
        self.resort();
    }
}

/// The sort toggle target one column to the left of the active one
/// (the first column when none is active).
pub open spec fn spec_sort_left(sort_column: Option<usize>) -> usize {
    match sort_column {
        Some(c) => if c > 0 {
            (c - 1) as usize
        } else {
            0usize
        },
        None => 0usize,
    }
}

/// The sort toggle target one column to the right of the active one,
/// clamped to the last column (the first column when none is active).
pub open spec fn spec_sort_right(sort_column: Option<usize>, ncols: int) -> usize {
    match sort_column {
        Some(c) => if ncols == 0 {
            0usize
        } else if c + 1 < ncols {
            (c + 1) as usize
        } else {
            (ncols - 1) as usize
        },
        None => 0usize,
    }
}

impl DiskTable {
    /// Routes a key press: arrows move the selection, paging and
    /// home/end move the window, the sort keys toggle the sort one
    /// column to the left or right, activate hands the selected data
    /// row to the host, and anything else is not consumed.
    pub fn handle_key_event(&mut self, event: KeyInput) -> (r: EventOutcome)
        requires
            old(self).wf(),
        ensures
            final(self).wf(),
            final(self).same_shape(*old(self)),
            final(self).state.table_width_state == old(self).state.table_width_state,
            match event {
                KeyInput::Up => final(self).state.sort_state == old(self).state.sort_state
                    && final(self).order == old(self).order && final(self).state.scroll_state
                    == spec_move_selection(
                    old(self).state.scroll_state,
                    -1,
                    old(self).rows@.len() as int,
                    old(self).spec_visible(),
                ) && r == EventOutcome::Consumed,
                KeyInput::Down => final(self).state.sort_state == old(self).state.sort_state
                    && final(self).order == old(self).order && final(self).state.scroll_state
                    == spec_move_selection(
                    old(self).state.scroll_state,
                    1,
                    old(self).rows@.len() as int,
                    old(self).spec_visible(),
                ) && r == EventOutcome::Consumed,
                KeyInput::PageUp => final(self).state.sort_state == old(self).state.sort_state
                    && final(self).order == old(self).order && final(self).state.scroll_state
                    == spec_scroll_by(
                    old(self).state.scroll_state,
                    -old(self).spec_visible(),
                    old(self).rows@.len() as int,
                    old(self).spec_visible(),
                ) && r == EventOutcome::Consumed,
                KeyInput::PageDown => final(self).state.sort_state == old(self).state.sort_state
                    && final(self).order == old(self).order && final(self).state.scroll_state
                    == spec_scroll_by(
                    old(self).state.scroll_state,
                    old(self).spec_visible(),
                    old(self).rows@.len() as int,
                    old(self).spec_visible(),
                ) && r == EventOutcome::Consumed,
                KeyInput::Home => final(self).state.sort_state == old(self).state.sort_state
                    && final(self).order == old(self).order && final(self).state.scroll_state
                    == spec_home(old(self).state.scroll_state, old(self).rows@.len() as int) && r
                    == EventOutcome::Consumed,
                KeyInput::End => final(self).state.sort_state == old(self).state.sort_state
                    && final(self).order == old(self).order && final(self).state.scroll_state
                    == spec_end(
                    old(self).state.scroll_state,
                    old(self).rows@.len() as int,
                    old(self).spec_visible(),
                ) && r == EventOutcome::Consumed,
                KeyInput::SortLeft => final(self).state.scroll_state == old(self).state.scroll_state && final(self).state.sort_state == old(self).state.sort_state.spec_toggle(
                    spec_sort_left(old(self).state.sort_state.sort_column),
                    old(self).columns@,
                ) && r == EventOutcome::Consumed,
                KeyInput::SortRight => final(self).state.scroll_state == old(self).state.scroll_state && final(self).state.sort_state == old(self).state.sort_state.spec_toggle(
                    spec_sort_right(
                        old(self).state.sort_state.sort_column,
                        old(self).columns@.len() as int,
                    ),
                    old(self).columns@,
                ) && r == EventOutcome::Consumed,
                KeyInput::Activate => *final(self) == *old(self) && r == (match old(self).state.scroll_state.selected_row {
                    Some(k) => if k < old(self).order@.len() {
                        EventOutcome::Activated(old(self).order@[k as int])
                    } else {
                        EventOutcome::Consumed
                    },
                    None => EventOutcome::Consumed,
                }),
                KeyInput::Other => *final(self) == *old(self) && r == EventOutcome::NotConsumed,
            },
    {
        let rc = self.rows.len();
        let vis = self.visible_rows();
        match event {
            KeyInput::Up => {
                self.state.scroll_state.move_selection(-1, rc, vis);
                EventOutcome::Consumed
            },
            KeyInput::Down => {
                self.state.scroll_state.move_selection(1, rc, vis);
                EventOutcome::Consumed
            },
            KeyInput::PageUp => {
                self.state.scroll_state.page_up(rc, vis);
                EventOutcome::Consumed
            },
            KeyInput::PageDown => {
                self.state.scroll_state.page_down(rc, vis);
                EventOutcome::Consumed
            },
            KeyInput::Home => {
                self.state.scroll_state.home(rc, vis);
                EventOutcome::Consumed
            },
            KeyInput::End => {
                self.state.scroll_state.end(rc, vis);
                EventOutcome::Consumed
            },
            KeyInput::SortLeft => {
                let target: usize = match self.state.sort_state.sort_column {
                    Some(c) => if c > 0 {
                        c - 1
                    } else {
                        0
                    },
                    None => 0,
                };
                self.toggle_sort(target);
                EventOutcome::Consumed
            },
            KeyInput::SortRight => {
                let ncols = self.columns.len();
                let target: usize = match self.state.sort_state.sort_column {
                    Some(c) => if ncols == 0 {
                        0
                    } else if c < ncols - 1 {
                        c + 1
                    } else {
                        ncols - 1
                    },
                    None => 0,
                };
                self.toggle_sort(target);
                EventOutcome::Consumed
            },
            KeyInput::Activate => {
                match self.state.scroll_state.selected_row {
                    Some(k) => {
                        if k < self.order.len() {
                            EventOutcome::Activated(self.order[k])
                        } else {
                            EventOutcome::Consumed
                        }
                    },
                    None => EventOutcome::Consumed,
                }
            },
            KeyInput::Other => EventOutcome::NotConsumed,
        }
    }

    /// Routes a mouse event, with coordinates relative to the content
    /// area: a click on the header line toggles the sort of the
    /// column under the pointer; a click on a data line selects that
    /// row, or activates it when it was already selected; the wheel
    /// scrolls by one row.
    pub fn handle_mouse_event(&mut self, event: MouseInput) -> (r: EventOutcome)
        requires
            old(self).wf(),
        ensures
            final(self).wf(),
            final(self).same_shape(*old(self)),
            match event {
                MouseInput::Click { x, y } => {
                    if y == 0 {
                        final(self).state.scroll_state == old(self).state.scroll_state && final(self).state.sort_state == (match spec_column_at(
                            old(self).state.table_width_state.cached_widths@,
                            x as int,
                        ) {
                            Some(c) => old(self).state.sort_state.spec_toggle(
                                c as usize,
                                old(self).columns@,
                            ),
                            None => old(self).state.sort_state,
                        }) && r == EventOutcome::Consumed
                    } else {
                        let pos = old(self).state.scroll_state.scroll_offset + y - 1;
                        final(self).state.sort_state == old(self).state.sort_state && final(self).order == old(self).order && final(self).state.table_width_state == old(self).state.table_width_state && (if pos < old(self).rows@.len() {
                            &&& final(self).state.scroll_state == spec_select(
                                old(self).state.scroll_state,
                                pos as int,
                                old(self).rows@.len() as int,
                                old(self).spec_visible(),
                            )
                            &&& r == (if old(self).state.scroll_state.selected_row == Some(
                                pos as usize,
                            ) {
                                EventOutcome::Activated(old(self).order@[pos as int])
                            } else {
                                EventOutcome::Consumed
                            })
                        } else {
                            final(self).state.scroll_state == old(self).state.scroll_state && r
                                == EventOutcome::NotConsumed
                        })
                    }
                },
                MouseInput::WheelUp => final(self).state.sort_state == old(self).state.sort_state
                    && final(self).order == old(self).order && final(self).state.scroll_state
                    == spec_scroll_by(
                    old(self).state.scroll_state,
                    -1,
                    old(self).rows@.len() as int,
                    old(self).spec_visible(),
                ) && r == EventOutcome::Consumed,
                MouseInput::WheelDown => final(self).state.sort_state == old(self).state.sort_state && final(self).order == old(self).order && final(self).state.scroll_state == spec_scroll_by(
                    old(self).state.scroll_state,
                    1,
                    old(self).rows@.len() as int,
                    old(self).spec_visible(),
                ) && r == EventOutcome::Consumed,
            },
    {
        let rc = self.rows.len();
        let vis = self.visible_rows();
        match event {
            MouseInput::Click { x, y } => {
                if y == 0 {
                    let target = column_at(&self.state.table_width_state.cached_widths, x);
                    match target {
                        Some(c) => {
                            self.toggle_sort(c);
                        },
                        None => {},
                    }
                    EventOutcome::Consumed
                } else {
                    if (y - 1) as usize <= usize::MAX - self.state.scroll_state.scroll_offset {
                        let pos = self.state.scroll_state.scroll_offset + (y - 1) as usize;
                        if pos < rc {
                            let was = match self.state.scroll_state.selected_row {
                                Some(k) => k == pos,
                                None => false,
                            };
                            self.state.scroll_state.select(pos, rc, vis);
                            if was {
                                EventOutcome::Activated(self.order[pos])
                            } else {
                                EventOutcome::Consumed
                            }
                        } else {
                            EventOutcome::NotConsumed
                        }
                    } else {
                        EventOutcome::NotConsumed
                    }
                }
            },
            MouseInput::WheelUp => {
                self.state.scroll_state.scroll_by(-1, rc, vis);
                EventOutcome::Consumed
            },
            MouseInput::WheelDown => {
                self.state.scroll_state.scroll_by(1, rc, vis);
                EventOutcome::Consumed
            },
        }
    }

    /// Produces the visual description of one frame: the column
    /// widths for the draw area (cached), the fitted header with the
    /// sort indicator, and the visible window of sorted rows, with
    /// the selected line marked.  Scroll and selection are re-clamped
    /// to the area's geometry first; nothing else changes.
    pub fn draw(&mut self, area: Rect, focused: bool) -> (g: DrawGrid)
        requires
            old(self).wf(),
        ensures
            final(self).wf(),
            final(self).same_shape(*old(self)),
            final(self).state.sort_state == old(self).state.sort_state,
            final(self).order == old(self).order,
            final(self).state.scroll_state == spec_reclamp(
                old(self).state.scroll_state,
                old(self).rows@.len() as int,
                spec_visible_rows(area.height as int, old(self).block_border),
            ),
            g.focused == focused,
            g.widths@.len() == old(self).columns@.len(),
            forall|i: int|
                0 <= i < g.widths@.len() ==> #[trigger] g.widths@[i] as int == alloc_spec(
                    old(self).columns@,
                    spec_content_width(area.width as int),
                )[i],
            g.header@.len() == old(self).columns@.len(),
            forall|i: int|
                0 <= i < g.header@.len() ==> #[trigger] g.header@[i]@ == spec_fit(
                    spec_header_text(old(self).columns@[i], i, old(self).state.sort_state),
                    g.widths@[i] as int,
                ),
            ({
                let off = final(self).state.scroll_state.scroll_offset as int;
                let vis = spec_visible_rows(area.height as int, old(self).block_border);
                let rc = old(self).rows@.len() as int;
                let count = if rc - off < vis {
                    rc - off
                } else {
                    vis
                };
                &&& g.cells@.len() == count
                &&& forall|v: int|
                    0 <= v < count ==> (#[trigger] g.cells@[v])@.len() == g.widths@.len()
                &&& forall|v: int, c: int|
                    0 <= v < count && 0 <= c < g.widths@.len() ==> (#[trigger] g.cells@[v]@[c])@
                        == spec_fit(
                        spec_cell_text(old(self).rows@[old(self).order@[off + v] as int], c),
                        g.widths@[c] as int,
                    )
                &&& g.selected == (match final(self).state.scroll_state.selected_row {
                    Some(k) => if off <= k < off + count {
                        Some((k - off) as usize)
                    } else {
                        None::<usize>
                    },
                    None => None::<usize>,
                })
            }),
    {
        let rc = self.rows.len();
        let chrome: u16 = match self.block_border {
            BorderKind::All => 3,
            BorderKind::Sides => 1,
        };
        let vis: usize = if area.height > chrome {
            (area.height - chrome) as usize
        } else {
            0
        };
        self.state.scroll_state.reclamp(rc, vis);
        let cw: u16 = if area.width > 2 {
            area.width - 2
        } else {
            0
        };
        let widths_ref = self.state.table_width_state.widths(&self.columns, cw);
        let widths = copy_widths(widths_ref);
        let header = build_header(&self.columns, &widths, &self.state.sort_state);
        let off = self.state.scroll_state.scroll_offset;
        let count: usize = if rc - off < vis {
            rc - off
        } else {
            vis
        };
        let cells = build_cells(&self.rows, &self.order, &widths, off, count);
        let selected: Option<usize> = match self.state.scroll_state.selected_row {
            Some(k) => {
                if off <= k && k < off + count {
                    Some(k - off)
                } else {
                    None
                }
            },
            None => None,
        };
        DrawGrid { widths, header, cells, selected, focused }
    }
}

/// A copy of the width vector, element for element.
fn copy_widths(w: &Vec<u16>) -> (r: Vec<u16>)
    ensures
        r@ == w@,
{
    let n = w.len();
    let mut r: Vec<u16> = Vec::new();
    let mut i: usize = 0;
    while i < n
        invariant
            i <= n,
            n == w@.len(),
            r@.len() == i,
            forall|k: int| 0 <= k < i ==> #[trigger] r@[k] == w@[k],
        decreases n - i,
    {
        r.push(w[i]);
        i = i + 1;
    }
    proof {
        assert(r@ =~= w@);
    }
    r
}

/// The identity order: the rows exactly as the data layer handed
/// them over.
pub fn identity_order(n: usize) -> (r: Vec<usize>)
    ensures
        r@.len() == n,
        forall|i: int| 0 <= i < n ==> (#[trigger] r@[i]) == i,
{
    let mut r: Vec<usize> = Vec::new();
    let mut i: usize = 0;
    while i < n
        invariant
            i <= n,
            r@.len() == i,
            forall|k: int| 0 <= k < i ==> (#[trigger] r@[k]) == k,
        decreases n - i,
    {
        r.push(i);
        i = i + 1;
    }
    r
}

/// The column a click at content offset `x` lands in.
pub fn column_at(ws: &Vec<u16>, x: u16) -> (r: Option<usize>)
    ensures
        match r {
            Some(c) => Some(c as int) == spec_column_at(ws@, x as int),
            None => spec_column_at(ws@, x as int) is None,
        },
{
    let n = ws.len();
    let mut i: usize = 0;
    let mut xr: u16 = x;
    proof {
        assert(ws@.skip(0) =~= ws@);
    }
    while i < n
        invariant
            i <= n,
            n == ws@.len(),
            spec_column_at(ws@, x as int) == (match spec_column_at(
                ws@.skip(i as int),
                xr as int,
            ) {
                Some(c) => Some(c + i),
                None => None::<int>,
            }),
        decreases n - i,
    {
        proof {
            assert(ws@.skip(i as int).drop_first() =~= ws@.skip(i as int + 1));
            assert(ws@.skip(i as int)[0] == ws@[i as int]);
        }
        if xr < ws[i] {
            return Some(i);
        }
        xr = xr - ws[i];
        i = i + 1;
    }
    proof {
        assert(ws@.skip(n as int).len() == 0);
    }
    None
}

} // verus!
