//! The draw orchestrator's building blocks: cells fitted to their
//! column width, the header line with the sort indicator, and the
//! visible slice of rows as a grid of fitted cells.
//!
//! Nothing here mutates table state; the output is a plain
//! description of what to paint.

use vstd::prelude::*;

use crate::column::Column;
use crate::row::Row;
use crate::sort::SortState;

verus! {

/// A string fitted to exactly `w` cells: truncated when too long,
/// padded with spaces when too short.
pub open spec fn spec_fit(s: Seq<char>, w: int) -> Seq<char> {
    if s.len() >= w {
        s.take(w)
    } else {
        s + Seq::new((w - s.len()) as nat, |i: int| ' ')
    }
}

/// The text of a header cell: the column label, with the sort
/// indicator appended on the active sort column — `^` ascending,
/// `v` descending.
pub open spec fn spec_header_text(c: Column, i: int, sort: SortState) -> Seq<char> {
    if sort.sort_column == Some(i as usize) {
        c.label@ + seq![if sort.sort_descending {
            'v'
        } else {
            '^'
        }]
    } else {
        c.label@
    }
}

/// The text of a data cell: the row's display string for that column,
/// empty past the end of the row.
pub open spec fn spec_cell_text(row: Row, c: int) -> Seq<char> {
    if 0 <= c < row.cells@.len() {
        row.cells@[c]@
    } else {
        Seq::<char>::empty()
    }
}

/// Fits `s` to exactly `w` cells.
pub fn fit_cell(s: &String, w: u16) -> (r: String)
    ensures
        r@ == spec_fit(s@, w as int),
        r@.len() == w,
{
    let n = s.as_str().unicode_len();
    if n >= w as usize {
        let t = s.as_str().substring_char(0, w as usize);
        let r = t.to_owned();
        proof {
            assert(r@ =~= spec_fit(s@, w as int));
        }
        r
    } else {
        let mut r = s.clone();
        let mut k = n;
        proof {
            reveal_strlit(" ");
            assert(r@ =~= s@ + Seq::new((k - n) as nat, |i: int| ' '));
        }
        while k < w as usize
            invariant
                n <= k <= w,
                n == s@.len(),
                r@ == s@ + Seq::new((k - n) as nat, |i: int| ' '),
            decreases w - k,
        {
            r.append(" ");
            k = k + 1;
            proof {
                reveal_strlit(" ");
                assert(r@ =~= s@ + Seq::new((k - n) as nat, |i: int| ' '));
            }
        }
        proof {
            assert(r@ =~= spec_fit(s@, w as int));
        }
        r
    }
}

/// Builds the header line: one cell per column, fitted to its width,
/// with the sort indicator on the active column.
pub fn build_header(columns: &Vec<Column>, widths: &Vec<u16>, sort: &SortState) -> (h: Vec<String>)
    requires
        widths@.len() == columns@.len(),
    ensures
        h@.len() == columns@.len(),
        forall|i: int|
            0 <= i < h@.len() ==> #[trigger] h@[i]@ == spec_fit(
                spec_header_text(columns@[i], i, *sort),
                widths@[i] as int,
            ),
{
    let n = columns.len();
    let mut h: Vec<String> = Vec::new();
    let mut i: usize = 0;
    while i < n
        invariant
            i <= n,
            n == columns@.len(),
            widths@.len() == n,
            h@.len() == i,
            forall|k: int|
                0 <= k < i ==> #[trigger] h@[k]@ == spec_fit(
                    spec_header_text(columns@[k], k, *sort),
                    widths@[k] as int,
                ),
        decreases n - i,
    {
        let active = match sort.sort_column {
            Some(c) => c == i,
            None => false,
        };
        let mut text = columns[i].label.clone();
        if active {
            if sort.sort_descending {
                text.append("v");
                proof {
                    reveal_strlit("v");
                    assert(text@ =~= spec_header_text(columns@[i as int], i as int, *sort));
                }
            } else {
                text.append("^");
                proof {
                    reveal_strlit("^");
                    assert(text@ =~= spec_header_text(columns@[i as int], i as int, *sort));
                }
            }
        }
        let cell = fit_cell(&text, widths[i]);
        h.push(cell);
        i = i + 1;
    }
    h
}

/// Builds the visible slice of the grid: `count` rows starting at
/// display position `offset` of the sorted order, each cell fitted to
/// its column's width.
pub fn build_cells(
    rows: &Vec<Row>,
    order: &Vec<usize>,
    widths: &Vec<u16>,
    offset: usize,
    count: usize,
) -> (g: Vec<Vec<String>>)
    requires
        offset + count <= order@.len(),
        forall|i: int| 0 <= i < order@.len() ==> (#[trigger] order@[i]) < rows@.len(),
    ensures
        g@.len() == count,
        forall|v: int| 0 <= v < count ==> (#[trigger] g@[v])@.len() == widths@.len(),
        forall|v: int, c: int|
            0 <= v < count && 0 <= c < widths@.len() ==> (#[trigger] g@[v]@[c])@ == spec_fit(
                spec_cell_text(rows@[order@[offset + v] as int], c),
                widths@[c] as int,
            ),
{
    let ncols = widths.len();
    let total = order.len();
    let mut g: Vec<Vec<String>> = Vec::new();
    let mut v: usize = 0;
    while v < count
        invariant
            v <= count,
            total == order@.len(),
            offset + count <= order@.len(),
            forall|i: int| 0 <= i < order@.len() ==> (#[trigger] order@[i]) < rows@.len(),
            ncols == widths@.len(),
            g@.len() == v,
            forall|k: int| 0 <= k < v ==> (#[trigger] g@[k])@.len() == ncols,
            forall|k: int, c: int|
                0 <= k < v && 0 <= c < ncols ==> (#[trigger] g@[k]@[c])@ == spec_fit(
                    spec_cell_text(rows@[order@[offset + k] as int], c),
                    widths@[c] as int,
                ),
        decreases count - v,
    {
        assert(offset + v < order@.len());
        let ri = order[offset + v];
        let row = &rows[ri];
        let mut line: Vec<String> = Vec::new();
        let mut c: usize = 0;
        while c < ncols
            invariant
                c <= ncols,
                ncols == widths@.len(),
                offset + v < order@.len(),
                (order@[(offset + v) as int] as int) < rows@.len(),
                row == &rows@[order@[(offset + v) as int] as int],
                line@.len() == c,
                forall|k: int|
                    0 <= k < c ==> (#[trigger] line@[k])@ == spec_fit(
                        spec_cell_text(*row, k),
                        widths@[k] as int,
                    ),
            decreases ncols - c,
        {
            let cell = if c < row.cells.len() {
                fit_cell(&row.cells[c], widths[c])
            } else {
                let empty = String::new();
                fit_cell(&empty, widths[c])
            };
            line.push(cell);
            c = c + 1;
        }
        g.push(line);
        v = v + 1;
    }
    g
}

} // verus!
