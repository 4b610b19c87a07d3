//! The sort engine: the active sort column and direction, and the
//! stable ordering of the rows under them.
//!
//! Sorting does not move the rows themselves; it produces a
//! permutation of row positions, ordered by the active column's keys
//! and, between equal keys, by original position — which is exactly
//! stability.  A column whose keys are all numeric compares by value,
//! any other column by character code.

use vstd::prelude::*;

use crate::column::Column;
use crate::row::Row;
use crate::sortkey::{
    KeyOrder, is_numeric_key, key_eq, key_lt, lemma_lex_lt_irrefl, lemma_lex_lt_total,
    lemma_lex_lt_trans, parse_numeric, str_order,
};

verus! {

/// The active sort column and direction of one table instance.
pub struct SortState {
    pub sort_column: Option<usize>,
    pub sort_descending: bool,
}

impl SortState {
    /// No active sort: rows keep the order the data layer supplied.
    pub fn new() -> (s: SortState)
        ensures
            s.sort_column is None,
            s.sort_descending == false,
    {
        SortState { sort_column: None, sort_descending: false }
    }

    /// What a toggle on column `i` does: nothing on an unknown or
    /// unsortable column; a first toggle sorts the column ascending; a
    /// toggle on the already active column flips the direction.
    pub open spec fn spec_toggle(self, i: usize, cols: Seq<Column>) -> SortState {
        if i >= cols.len() || !cols[i as int].sortable {
            self
        } else if self.sort_column == Some(i) {
            SortState { sort_column: self.sort_column, sort_descending: !self.sort_descending }
        } else {
            SortState { sort_column: Some(i), sort_descending: false }
        }
    }

    /// Toggles the sort on column `i` of `columns`.
    pub fn toggle(&mut self, i: usize, columns: &Vec<Column>)
        ensures
            *final(self) == old(self).spec_toggle(i, columns@),
    {
        if i >= columns.len() || !columns[i].sortable {
            return ;
        }
        let active = match self.sort_column {
            Some(j) => j == i,
            None => false,
        };
        if active {
            self.sort_descending = !self.sort_descending;
        } else {
            self.sort_column = Some(i);
            self.sort_descending = false;
        }
    }

    /// Toggling the active column twice brings the state — and with it
    /// the displayed row order — back to where it started; in
    /// particular, starting from the ascending sort the rows return to
    /// ascending order.
    pub proof fn lemma_toggle_round_trip(self, i: usize, cols: Seq<Column>)
        requires
            i < cols.len(),
            cols[i as int].sortable,
            self.sort_column == Some(i),
        ensures
            self.spec_toggle(i, cols).spec_toggle(i, cols) == self,
    {
    }
}

/// Every key of column `col` compares numerically.
pub open spec fn spec_col_numeric(rows: Seq<Row>, col: int) -> bool {
    forall|r: int| 0 <= r < rows.len() ==> is_numeric_key(#[trigger] rows[r].key_at(col))
}

/// Row `a` comes before row `b` under the active sort: its key is
/// strictly smaller in the sort direction, or the keys tie and `a`
/// stood first — the tie-break that makes the sort stable.
pub open spec fn spec_row_before(
    rows: Seq<Row>,
    col: int,
    numeric: bool,
    descending: bool,
    a: int,
    b: int,
) -> bool {
    let ka = rows[a].key_at(col);
    let kb = rows[b].key_at(col);
    let lt = if descending {
        key_lt(kb, ka, numeric)
    } else {
        key_lt(ka, kb, numeric)
    };
    lt || (key_eq(ka, kb, numeric) && a < b)
}

/// Position `v` occurs somewhere in the permutation.
pub open spec fn spec_appears(perm: Seq<usize>, v: int) -> bool {
    exists|i: int| 0 <= i < perm.len() && (#[trigger] perm[i]) as int == v
}

/// A permutation of row positions ordered by the active sort.
pub open spec fn spec_perm_ordered(
    rows: Seq<Row>,
    col: int,
    descending: bool,
    perm: Seq<usize>,
) -> bool {
    forall|i: int, j: int|
        0 <= i < j < perm.len() ==> spec_row_before(
            rows,
            col,
            spec_col_numeric(rows, col),
            descending,
            #[trigger] perm[i] as int,
            #[trigger] perm[j] as int,
        )
}

/// Two distinct rows always compare one way or the other.
proof fn lemma_before_total(
    rows: Seq<Row>,
    col: int,
    numeric: bool,
    descending: bool,
    a: int,
    b: int,
)
    requires
        a != b,
    ensures
        spec_row_before(rows, col, numeric, descending, a, b) || spec_row_before(
            rows,
            col,
            numeric,
            descending,
            b,
            a,
        ),
{
    if !numeric {
        lemma_lex_lt_total(rows[a].key_at(col), rows[b].key_at(col));
    }
}

/// The sort order is transitive.
proof fn lemma_before_trans(
    rows: Seq<Row>,
    col: int,
    numeric: bool,
    descending: bool,
    a: int,
    b: int,
    c: int,
)
    requires
        spec_row_before(rows, col, numeric, descending, a, b),
        spec_row_before(rows, col, numeric, descending, b, c),
    ensures
        spec_row_before(rows, col, numeric, descending, a, c),
{
    let ka = rows[a].key_at(col);
    let kb = rows[b].key_at(col);
    let kc = rows[c].key_at(col);
    if !numeric {
        if descending {
            if key_lt(kc, kb, numeric) && key_lt(kb, ka, numeric) {
                lemma_lex_lt_trans(kc, kb, ka);
            }
        } else {
            if key_lt(ka, kb, numeric) && key_lt(kb, kc, numeric) {
                lemma_lex_lt_trans(ka, kb, kc);
            }
        }
    }
}

/// Whether every key of column `col` is numeric, so that the column
/// compares by value rather than by character.
pub fn column_is_numeric(rows: &Vec<Row>, col: usize) -> (r: bool)
    ensures
        r == spec_col_numeric(rows@, col as int),
{
    let n = rows.len();
    let mut i: usize = 0;
    while i < n
        invariant
            i <= n == rows@.len(),
            forall|k: int| 0 <= k < i ==> is_numeric_key(#[trigger] rows@[k].key_at(col as int)),
        decreases n - i,
    {
        let numeric = match rows[i].key_ref(col) {
            Some(s) => parse_numeric(s).is_some(),
            None => false,
        };
        if !numeric {
            assert(!is_numeric_key(rows@[i as int].key_at(col as int)));
            return false;
        }
        i = i + 1;
    }
    true
}

/// Decides whether row `a` comes before row `b` under the active
/// sort.
fn row_before(
    rows: &Vec<Row>,
    col: usize,
    numeric: bool,
    descending: bool,
    a: usize,
    b: usize,
) -> (r: bool)
    requires
        a < rows@.len(),
        b < rows@.len(),
        numeric ==> spec_col_numeric(rows@, col as int),
    ensures
        r == spec_row_before(rows@, col as int, numeric, descending, a as int, b as int),
{
    let ka = rows[a].key_ref(col);
    let kb = rows[b].key_ref(col);
    let ord: KeyOrder = if numeric {
        let va = match ka {
            Some(s) => parse_numeric(s),
            None => None,
        };
        let vb = match kb {
            Some(s) => parse_numeric(s),
            None => None,
        };
        match (va, vb) {
            (Some(x), Some(y)) => {
                if x < y {
                    KeyOrder::Less
                } else if y < x {
                    KeyOrder::Greater
                } else {
                    KeyOrder::Equal
                }
            },
            _ => {
                proof {
                    assert(is_numeric_key(rows@[a as int].key_at(col as int)));
                    assert(is_numeric_key(rows@[b as int].key_at(col as int)));
                    assert(false);
                }
                KeyOrder::Equal
            },
        }
    } else {
        match (ka, kb) {
            (Some(sa), Some(sb)) => str_order(sa, sb),
            (Some(sa), None) => {
                if sa.as_str().is_empty() {
                    proof {
                        assert(rows@[a as int].key_at(col as int) =~= rows@[b as int].key_at(
                            col as int,
                        ));
                    }
                    KeyOrder::Equal
                } else {
                    KeyOrder::Greater
                }
            },
            (None, Some(sb)) => {
                if sb.as_str().is_empty() {
                    proof {
                        assert(rows@[a as int].key_at(col as int) =~= rows@[b as int].key_at(
                            col as int,
                        ));
                    }
                    KeyOrder::Equal
                } else {
                    KeyOrder::Less
                }
            },
            (None, None) => {
                proof {
                    assert(rows@[a as int].key_at(col as int) =~= rows@[b as int].key_at(
                        col as int,
                    ));
                }
                KeyOrder::Equal
            },
        }
    };
    proof {
        if !numeric {
            lemma_lex_lt_irrefl(rows@[a as int].key_at(col as int));
            lemma_lex_lt_irrefl(rows@[b as int].key_at(col as int));
            if key_lt(
                rows@[a as int].key_at(col as int),
                rows@[b as int].key_at(col as int),
                false,
            ) && key_lt(
                rows@[b as int].key_at(col as int),
                rows@[a as int].key_at(col as int),
                false,
            ) {
                lemma_lex_lt_trans(
                    rows@[a as int].key_at(col as int),
                    rows@[b as int].key_at(col as int),
                    rows@[a as int].key_at(col as int),
                );
            }
        }
    }
    match ord {
        KeyOrder::Less => !descending,
        KeyOrder::Greater => descending,
        KeyOrder::Equal => a < b,
    }
}

/// Sorts the row positions of `rows` by column `col`, stably: the
/// result is a permutation of `0..rows.len()` such that between two
/// positions with equal keys the one that stood first in the data
/// still stands first.
pub fn sort_permutation(rows: &Vec<Row>, col: usize, descending: bool) -> (perm: Vec<usize>)
    ensures
        perm@.len() == rows@.len(),
        forall|i: int| 0 <= i < perm@.len() ==> (#[trigger] perm@[i]) < rows@.len(),
        forall|i: int, j: int| 0 <= i < j < perm@.len() ==> perm@[i] != perm@[j],
        spec_perm_ordered(rows@, col as int, descending, perm@),
        forall|i: int, j: int|
            0 <= i < j < perm@.len() && key_eq(
                rows@[perm@[i] as int].key_at(col as int),
                rows@[perm@[j] as int].key_at(col as int),
                spec_col_numeric(rows@, col as int),
            ) ==> #[trigger] perm@[i] < #[trigger] perm@[j],
        forall|v: int| 0 <= v < perm@.len() ==> #[trigger] spec_appears(perm@, v),
{
    let ghost rs = rows@;
    let ghost c = col as int;
    let n = rows.len();
    let numeric = column_is_numeric(rows, col);
    let mut perm: Vec<usize> = Vec::new();
    let mut i: usize = 0;
    while i < n
        invariant
            i <= n,
            perm@.len() == i,
            forall|k: int| 0 <= k < i ==> #[trigger] perm@[k] == k,
        decreases n - i,
    {
        perm.push(i);
        i = i + 1;
    }
    let mut i: usize = 1;
    while i < n
        invariant
            n == rs.len(),
            rs == rows@,
            c == col as int,
            numeric == spec_col_numeric(rs, c),
            1 <= i <= n || (n <= 1 && i == 1),
            perm@.len() == n,
            forall|k: int| 0 <= k < n ==> (#[trigger] perm@[k]) < n,
            forall|k1: int, k2: int| 0 <= k1 < k2 < n ==> perm@[k1] != perm@[k2],
            forall|k1: int, k2: int|
                0 <= k1 < k2 < i ==> spec_row_before(
                    rs,
                    c,
                    numeric,
                    descending,
                    #[trigger] perm@[k1] as int,
                    #[trigger] perm@[k2] as int,
                ),
        decreases n - i,
    {
        let mut j: usize = i;
        let mut moving = true;
        while moving && j > 0
            invariant
                n == rs.len(),
                rs == rows@,
                c == col as int,
                numeric == spec_col_numeric(rs, c),
                j <= i < n,
                perm@.len() == n,
                forall|k: int| 0 <= k < n ==> (#[trigger] perm@[k]) < n,
                forall|k1: int, k2: int| 0 <= k1 < k2 < n ==> perm@[k1] != perm@[k2],
                moving ==> forall|k1: int, k2: int|
                    0 <= k1 < k2 <= i && k2 != j ==> spec_row_before(
                        rs,
                        c,
                        numeric,
                        descending,
                        #[trigger] perm@[k1] as int,
                        #[trigger] perm@[k2] as int,
                    ),
                !moving ==> forall|k1: int, k2: int|
                    0 <= k1 < k2 <= i ==> spec_row_before(
                        rs,
                        c,
                        numeric,
                        descending,
                        #[trigger] perm@[k1] as int,
                        #[trigger] perm@[k2] as int,
                    ),
            decreases j + (if moving {
                1int
            } else {
                0int
            }),
        {
            let pj = perm[j];
            let pjm = perm[j - 1];
            if row_before(rows, col, numeric, descending, pj, pjm) {
                let ghost before = perm@;
                perm.set(j - 1, pj);
                perm.set(j, pjm);
                proof {
                    assert(perm@ =~= before.update(j - 1, pj).update(j as int, pjm));
                }
                j = j - 1;
            } else {
                proof {
                    lemma_before_total(rs, c, numeric, descending, pj as int, pjm as int);
                    assert(spec_row_before(rs, c, numeric, descending, pjm as int, pj as int));
                    assert forall|k1: int|
                        0 <= k1 < j - 1 implies spec_row_before(
                        rs,
                        c,
                        numeric,
                        descending,
                        perm@[k1] as int,
                        perm@[j as int] as int,
                    ) by {
                        lemma_before_trans(
                            rs,
                            c,
                            numeric,
                            descending,
                            perm@[k1] as int,
                            perm@[j - 1] as int,
                            perm@[j as int] as int,
                        );
                    }
                }
                moving = false;
            }
        }
        i = i + 1;
    }
    proof {
        assert forall|i0: int, j0: int|
            0 <= i0 < j0 < perm@.len() && key_eq(
                rs[perm@[i0] as int].key_at(c),
                rs[perm@[j0] as int].key_at(c),
                spec_col_numeric(rs, c),
            ) implies #[trigger] perm@[i0] < #[trigger] perm@[j0] by {
            if !spec_col_numeric(rs, c) {
                lemma_lex_lt_irrefl(rs[perm@[i0] as int].key_at(c));
                lemma_lex_lt_irrefl(rs[perm@[j0] as int].key_at(c));
            }
        }
        lemma_injective_range_is_onto(perm@);
    }
    perm
}

/// A sequence of `n` distinct positions below `n` hits every
/// position below `n`: no row is dropped or duplicated by the sort.
proof fn lemma_injective_range_is_onto(perm: Seq<usize>)
    requires
        forall|i: int| 0 <= i < perm.len() ==> (#[trigger] perm[i]) < perm.len(),
        forall|i: int, j: int| 0 <= i < j < perm.len() ==> perm[i] != perm[j],
    ensures
        forall|v: int| 0 <= v < perm.len() ==> #[trigger] spec_appears(perm, v),
{
    broadcast use vstd::seq_lib::seq_to_set_is_finite;

    let n = perm.len() as int;
    let pi = perm.map_values(|u: usize| u as int);
    assert(pi.no_duplicates()) by {
        assert forall|i: int, j: int|
            0 <= i < pi.len() && 0 <= j < pi.len() && i != j implies pi[i] != pi[j] by {
            assert(pi[i] == perm[i] as int);
            assert(pi[j] == perm[j] as int);
        }
    }
    pi.unique_seq_to_set();
    vstd::set_lib::lemma_int_range(0, n);
    assert(pi.to_set().subset_of(vstd::set_lib::set_int_range(0, n))) by {
        assert forall|v: int| pi.to_set().contains(v) implies 0 <= v < n by {
            let i = choose|i: int| 0 <= i < pi.len() && pi[i] == v;
            assert(pi[i] == perm[i] as int);
        }
    }
    vstd::set_lib::lemma_subset_equality(pi.to_set(), vstd::set_lib::set_int_range(0, n));
    assert forall|v: int| 0 <= v < n implies #[trigger] spec_appears(perm, v) by {
        assert(vstd::set_lib::set_int_range(0, n).contains(v));
        assert(pi.to_set().contains(v));
        assert(pi.contains(v));
        let i = choose|i: int| 0 <= i < pi.len() && pi[i] == v;
        assert(perm[i] as int == v);
    }
}

} // verus!
