//! The row model: one row of display strings, with an optional sort
//! key per column that falls back to the display string when absent.
//!
//! Row identity is positional within the current snapshot; a data
//! refresh replaces the whole row set.

use vstd::prelude::*;

verus! {

/// One table row: the per-column display strings and the per-column
/// sort keys.
pub struct Row {
    pub cells: Vec<String>,
    pub sort_keys: Vec<Option<String>>,
}

impl Row {
    /// One sort key slot per cell.
    pub open spec fn wf(self) -> bool {
        self.sort_keys@.len() == self.cells@.len()
    }

    /// The key the sort engine orders this row by in column `col`:
    /// the explicit sort key if one was given, the display string
    /// otherwise, and the empty string past the end of the row.
    pub open spec fn key_at(self, col: int) -> Seq<char> {
        if 0 <= col < self.sort_keys@.len() && self.sort_keys@[col] is Some {
            self.sort_keys@[col]->0@
        } else if 0 <= col < self.cells@.len() {
            self.cells@[col]@
        } else {
            Seq::<char>::empty()
        }
    }

    /// A row that sorts by its display strings.
    pub fn new(cells: Vec<String>) -> (r: Row)
        ensures
            r.wf(),
            r.cells == cells,
            forall|c: int| 0 <= c < cells@.len() ==> r.key_at(c) == #[trigger] cells@[c]@,
    {
        let n = cells.len();
        let mut sort_keys: Vec<Option<String>> = Vec::new();
        let mut i: usize = 0;
        while i < n
            invariant
                i <= n,
                sort_keys@.len() == i,
                forall|k: int| 0 <= k < i ==> #[trigger] sort_keys@[k] is None,
            decreases n - i,
        {
            sort_keys.push(None);
            i = i + 1;
        }
        Row { cells, sort_keys }
    }

    /// A row with explicit sort keys; a `None` slot falls back to the
    /// display string of that column.
    pub fn with_keys(cells: Vec<String>, sort_keys: Vec<Option<String>>) -> (r: Row)
        requires
            sort_keys@.len() == cells@.len(),
        ensures
            r.wf(),
            r.cells == cells,
            r.sort_keys == sort_keys,
    {
        Row { cells, sort_keys }
    }

    /// The sort key of column `col`, as the string the engine reads;
    /// `None` when the column lies past the end of the row.
    pub fn key_ref(&self, col: usize) -> (k: Option<&String>)
        ensures
            match k {
                Some(s) => s@ == self.key_at(col as int),
                None => self.key_at(col as int) == Seq::<char>::empty(),
            },
    {
        if col < self.sort_keys.len() {
            match &self.sort_keys[col] {
                Some(s) => Some(s),
                None => {
                    if col < self.cells.len() {
                        Some(&self.cells[col])
                    } else {
                        None
                    }
                },
            }
        } else if col < self.cells.len() {
            Some(&self.cells[col])
        } else {
            None
        }
    }
}

} // verus!
