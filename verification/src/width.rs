//! The width allocator: distributes an available content width over a
//! column set.
//!
//! Hard columns reserve their requested width (never less than their
//! minimum); the rest is split over the flex columns in proportion to
//! their weights, rounding down, with the leftover cells from rounding
//! handed out left to right.  Every column is then held at or above its
//! minimum width; if the total overflows the available width, flex
//! columns are shrunk back towards their minimum starting from the
//! rightmost, and hard columns are truncated towards their minimum
//! right to left as a last resort, so the leftmost columns stay fully
//! visible.

use vstd::prelude::*;

use crate::column::{Column, ColumnSizing, wf_columns};

verus! {

/// The width a hard column reserves: its requested width, floored to
/// its minimum; a flex column reserves nothing up front.
pub open spec fn hard_claim(c: Column) -> int {
    match c.sizing {
        ColumnSizing::Hard(w) => if w >= c.min_width {
            w as int
        } else {
            c.min_width as int
        },
        ColumnSizing::Flex(_) => 0,
    }
}

/// Whether a column is flex-sized.
pub open spec fn is_flex_col(c: Column) -> bool {
    c.sizing matches ColumnSizing::Flex(_)
}

/// A flex column's weight; 0 for a hard column.
pub open spec fn flex_weight(c: Column) -> int {
    match c.sizing {
        ColumnSizing::Flex(w) => w as int,
        ColumnSizing::Hard(_) => 0,
    }
}

/// Sum of the hard claims of columns `m..`.
pub open spec fn sum_hard_from(cols: Seq<Column>, m: int) -> int
    decreases cols.len() - m,
{
    if m < 0 || m >= cols.len() {
        0
    } else {
        hard_claim(cols[m]) + sum_hard_from(cols, m + 1)
    }
}

/// Sum of the flex weights of columns `m..`.
pub open spec fn sum_weight_from(cols: Seq<Column>, m: int) -> int
    decreases cols.len() - m,
{
    if m < 0 || m >= cols.len() {
        0
    } else {
        flex_weight(cols[m]) + sum_weight_from(cols, m + 1)
    }
}

/// Sum of the minimum widths of columns `m..`.
pub open spec fn sum_min_from(cols: Seq<Column>, m: int) -> int
    decreases cols.len() - m,
{
    if m < 0 || m >= cols.len() {
        0
    } else {
        cols[m].min_width + sum_min_from(cols, m + 1)
    }
}

/// The width left for flex columns once the hard columns have claimed
/// theirs.
pub open spec fn rem_width(cols: Seq<Column>, avail: int) -> int {
    let h = sum_hard_from(cols, 0);
    if avail >= h {
        avail - h
    } else {
        0
    }
}

/// The rounded-down proportional share of one flex column:
/// `rem * w / wsum`, capped at `rem`.
pub open spec fn flex_base(rem: int, w: int, wsum: int) -> int {
    if wsum <= 0 {
        0
    } else {
        let q = rem * w / wsum;
        if q > rem {
            rem
        } else {
            q
        }
    }
}

/// Sum of the proportional shares of the flex columns `m..`.
pub open spec fn sum_base_from(cols: Seq<Column>, rem: int, wsum: int, m: int) -> int
    decreases cols.len() - m,
{
    if m < 0 || m >= cols.len() {
        0
    } else {
        let b = if is_flex_col(cols[m]) {
            flex_base(rem, flex_weight(cols[m]), wsum)
        } else {
            0
        };
        b + sum_base_from(cols, rem, wsum, m + 1)
    }
}

/// How many flex columns stand before column `i`.
pub open spec fn flex_rank(cols: Seq<Column>, i: int) -> int
    decreases i,
{
    if i <= 0 {
        0
    } else {
        flex_rank(cols, i - 1) + if is_flex_col(cols[i - 1]) {
            1int
        } else {
            0int
        }
    }
}

/// The cells lost to rounding down, handed out left to right.
pub open spec fn spec_leftover(cols: Seq<Column>, rem: int, wsum: int) -> int {
    let fs = sum_base_from(cols, rem, wsum, 0);
    if fs >= rem {
        0
    } else {
        rem - fs
    }
}

/// The width column `i` asks for before any overflow correction: the
/// hard claim for hard columns; for flex columns the proportional
/// share, plus one leftover cell for the first `leftover` flex
/// columns, clamped up to the minimum width.
pub open spec fn ideal_width(cols: Seq<Column>, avail: int, i: int) -> int {
    let c = cols[i];
    match c.sizing {
        ColumnSizing::Hard(_) => hard_claim(c),
        ColumnSizing::Flex(_) => {
            let rem = rem_width(cols, avail);
            let wsum = sum_weight_from(cols, 0);
            let b = flex_base(rem, flex_weight(c), wsum) + if flex_rank(cols, i) < spec_leftover(
                cols,
                rem,
                wsum,
            ) {
                1int
            } else {
                0int
            };
            if b >= c.min_width {
                b
            } else {
                c.min_width as int
            }
        },
    }
}

/// The per-column widths before any overflow correction.
pub open spec fn ideal_seq(cols: Seq<Column>, avail: int) -> Seq<int> {
    Seq::new(cols.len(), |i: int| ideal_width(cols, avail, i))
}

/// Sum of the widths `m..`.
pub open spec fn sum_from(ws: Seq<int>, m: int) -> int
    decreases ws.len() - m,
{
    if m < 0 || m >= ws.len() {
        0
    } else {
        ws[m] + sum_from(ws, m + 1)
    }
}

/// Sum of the widths `m..` of an executable width vector.
pub open spec fn sum_widths_from(ws: Seq<u16>, m: int) -> int
    decreases ws.len() - m,
{
    if m < 0 || m >= ws.len() {
        0
    } else {
        ws[m] + sum_widths_from(ws, m + 1)
    }
}

/// Whether a shrink pass may take cells from column `i`: the first
/// pass shrinks flex columns, the last-resort pass truncates hard
/// columns.
pub open spec fn pass_active(c: Column, flex_pass: bool) -> bool {
    if flex_pass {
        is_flex_col(c)
    } else {
        !is_flex_col(c)
    }
}

/// The cells a shrink pass may still take from column `i`: its width
/// above the minimum, if the pass applies to it.
pub open spec fn slack_at(cols: Seq<Column>, ws: Seq<int>, i: int, flex_pass: bool) -> int {
    if pass_active(cols[i], flex_pass) {
        ws[i] - cols[i].min_width
    } else {
        0
    }
}

/// Total slack of columns `m..` for one pass.
pub open spec fn slack_from(cols: Seq<Column>, ws: Seq<int>, m: int, flex_pass: bool) -> int
    decreases cols.len() - m,
{
    if m < 0 || m >= cols.len() {
        0
    } else {
        slack_at(cols, ws, m, flex_pass) + slack_from(cols, ws, m + 1, flex_pass)
    }
}

/// Column `i` after one shrink pass with the given excess: the columns
/// to its right take as much of the excess as their slack allows; what
/// is left comes out of column `i`, down to its minimum.
pub open spec fn shrunk_at(
    cols: Seq<Column>,
    ws: Seq<int>,
    excess: int,
    flex_pass: bool,
    i: int,
) -> int {
    let sl = slack_at(cols, ws, i, flex_pass);
    let want = excess - slack_from(cols, ws, i + 1, flex_pass);
    let cut = if want < 0 {
        0int
    } else if want > sl {
        sl
    } else {
        want
    };
    ws[i] - cut
}

/// All columns after one shrink pass.
pub open spec fn shrunk_seq(cols: Seq<Column>, ws: Seq<int>, excess: int, flex_pass: bool) -> Seq<
    int,
> {
    Seq::new(ws.len(), |i: int| shrunk_at(cols, ws, excess, flex_pass, i))
}

/// The whole allocation: with no usable width every column falls back
/// to its minimum; otherwise the ideal widths are computed and any
/// overflow is shrunk away, flex columns first, hard columns as a last
/// resort.
pub open spec fn alloc_spec(cols: Seq<Column>, avail: int) -> Seq<int> {
    if avail <= 0 {
        Seq::new(cols.len(), |i: int| cols[i].min_width as int)
    } else {
        let ideal = ideal_seq(cols, avail);
        let total = sum_from(ideal, 0);
        let e1 = if total > avail {
            total - avail
        } else {
            0int
        };
        let s1 = shrunk_seq(cols, ideal, e1, true);
        let sf1 = slack_from(cols, ideal, 0, true);
        let e2 = if e1 <= sf1 {
            0int
        } else {
            e1 - sf1
        };
        shrunk_seq(cols, s1, e2, false)
    }
}

/// A flex column's weight never exceeds the weight sum over any range
/// that contains it.
proof fn lemma_weight_le_sum(cols: Seq<Column>, i: int, m: int)
    requires
        0 <= m <= i < cols.len(),
    ensures
        flex_weight(cols[i]) <= sum_weight_from(cols, m),
        sum_weight_from(cols, m) >= 0,
    decreases i - m,
{
    if m < i {
        lemma_weight_le_sum(cols, i, m + 1);
    } else {
        lemma_sum_weight_nonneg(cols, m + 1);
    }
}

proof fn lemma_sum_weight_nonneg(cols: Seq<Column>, m: int)
    ensures
        sum_weight_from(cols, m) >= 0,
    decreases cols.len() - m,
{
    if 0 <= m < cols.len() {
        lemma_sum_weight_nonneg(cols, m + 1);
    }
}

/// A flex column's proportional share never exceeds the share sum over
/// any range that contains it.
proof fn lemma_base_le_sum(cols: Seq<Column>, rem: int, wsum: int, i: int, m: int)
    requires
        0 <= m <= i < cols.len(),
        rem >= 0,
    ensures
        is_flex_col(cols[i]) ==> flex_base(rem, flex_weight(cols[i]), wsum) <= sum_base_from(
            cols,
            rem,
            wsum,
            m,
        ),
        sum_base_from(cols, rem, wsum, m) >= 0,
    decreases i - m,
{
    if m < i {
        lemma_base_le_sum(cols, rem, wsum, i, m + 1);
    } else {
        lemma_sum_base_nonneg(cols, rem, wsum, m + 1);
    }
}

proof fn lemma_sum_base_nonneg(cols: Seq<Column>, rem: int, wsum: int, m: int)
    requires
        rem >= 0,
    ensures
        sum_base_from(cols, rem, wsum, m) >= 0,
    decreases cols.len() - m,
{
    if 0 <= m < cols.len() {
        lemma_sum_base_nonneg(cols, rem, wsum, m + 1);
    }
}

/// Slack sums are never negative when every affected column sits at or
/// above its minimum.
proof fn lemma_slack_from_nonneg(cols: Seq<Column>, ws: Seq<int>, m: int, flex_pass: bool)
    requires
        ws.len() == cols.len(),
        forall|i: int|
            0 <= i < cols.len() && pass_active(cols[i], flex_pass) ==> ws[i] >= #[trigger] cols[i].min_width,
    ensures
        slack_from(cols, ws, m, flex_pass) >= 0,
    decreases cols.len() - m,
{
    if 0 <= m < cols.len() {
        lemma_slack_from_nonneg(cols, ws, m + 1, flex_pass);
    }
}

/// What one shrink pass leaves of the suffix sum: the suffix loses
/// exactly the excess, up to the suffix's slack.
proof fn lemma_shrunk_sum(cols: Seq<Column>, ws: Seq<int>, excess: int, flex_pass: bool, m: int)
    requires
        ws.len() == cols.len(),
        excess >= 0,
        0 <= m <= cols.len(),
        forall|i: int|
            0 <= i < cols.len() && pass_active(cols[i], flex_pass) ==> ws[i] >= #[trigger] cols[i].min_width,
    ensures
        sum_from(shrunk_seq(cols, ws, excess, flex_pass), m) == sum_from(ws, m) - (if excess
            <= slack_from(cols, ws, m, flex_pass) {
            excess
        } else {
            slack_from(cols, ws, m, flex_pass)
        }),
    decreases cols.len() - m,
{
    if m < cols.len() {
        lemma_shrunk_sum(cols, ws, excess, flex_pass, m + 1);
        lemma_slack_from_nonneg(cols, ws, m + 1, flex_pass);
        assert(slack_at(cols, ws, m, flex_pass) >= 0);
        assert(shrunk_seq(cols, ws, excess, flex_pass)[m] == shrunk_at(
            cols,
            ws,
            excess,
            flex_pass,
            m,
        ));
    }
}

/// The two passes together can reach every cell above the minima: the
/// flex slack and the hard slack add up to the whole surplus over the
/// minimum widths.
proof fn lemma_slack_split(cols: Seq<Column>, ws: Seq<int>, m: int)
    requires
        ws.len() == cols.len(),
    ensures
        slack_from(cols, ws, m, true) + slack_from(cols, ws, m, false) == sum_from(ws, m)
            - sum_min_from(cols, m),
    decreases cols.len() - m,
{
    if 0 <= m < cols.len() {
        lemma_slack_split(cols, ws, m + 1);
    }
}

/// Slack for a pass only reads the columns the pass applies to.
proof fn lemma_slack_congruent(
    cols: Seq<Column>,
    ws1: Seq<int>,
    ws2: Seq<int>,
    m: int,
    flex_pass: bool,
)
    requires
        ws1.len() == cols.len(),
        ws2.len() == cols.len(),
        forall|i: int|
            0 <= i < cols.len() && #[trigger] pass_active(cols[i], flex_pass) ==> ws1[i] == ws2[i],
    ensures
        slack_from(cols, ws1, m, flex_pass) == slack_from(cols, ws2, m, flex_pass),
    decreases cols.len() - m,
{
    if 0 <= m < cols.len() {
        lemma_slack_congruent(cols, ws1, ws2, m + 1, flex_pass);
    }
}

/// Pointwise-equal width vectors have equal sums.
proof fn lemma_sum_widths_eq(ws: Seq<u16>, vs: Seq<int>, m: int)
    requires
        ws.len() == vs.len(),
        forall|i: int| 0 <= i < ws.len() ==> #[trigger] vs[i] == ws[i] as int,
    ensures
        sum_widths_from(ws, m) == sum_from(vs, m),
    decreases ws.len() - m,
{
    if 0 <= m < ws.len() {
        lemma_sum_widths_eq(ws, vs, m + 1);
    }
}

/// One shrink pass over the width vector, right to left, taking at
/// most `excess` cells in total and never pushing an affected column
/// below its minimum.  Returns the excess that is still unpaid.
fn shrink_pass(v: &mut Vec<u16>, cols: &Vec<Column>, excess: u128, flex_pass: bool) -> (rem_e:
    u128)
    requires
        old(v)@.len() == cols@.len(),
        forall|i: int|
            0 <= i < cols@.len() && pass_active(cols@[i], flex_pass) ==> old(v)@[i]
                >= #[trigger] cols@[i].min_width,
    ensures
        final(v)@.len() == old(v)@.len(),
        forall|i: int|
            0 <= i < cols@.len() ==> #[trigger] final(v)@[i] as int == shrunk_at(
                cols@,
                old(v)@.map_values(|x: u16| x as int),
                excess as int,
                flex_pass,
                i,
            ),
        rem_e as int == {
            let sf = slack_from(cols@, old(v)@.map_values(|x: u16| x as int), 0, flex_pass);
            if excess as int <= sf {
                0int
            } else {
                excess as int - sf
            }
        },
{
    let ghost ws = old(v)@.map_values(|x: u16| x as int);
    let n = v.len();
    let mut j: usize = n;
    let mut cur: u128 = excess;
    while j > 0
        invariant
            j <= n,
            n == cols@.len(),
            v@.len() == n,
            ws.len() == n,
            ws == old(v)@.map_values(|x: u16| x as int),
            forall|i: int|
                0 <= i < cols@.len() && pass_active(cols@[i], flex_pass) ==> old(v)@[i]
                    >= #[trigger] cols@[i].min_width,
            forall|k: int| 0 <= k < j ==> v@[k] == old(v)@[k],
            forall|k: int|
                j <= k < n ==> #[trigger] v@[k] as int == shrunk_at(
                    cols@,
                    ws,
                    excess as int,
                    flex_pass,
                    k,
                ),
            cur as int == {
                let sf = slack_from(cols@, ws, j as int, flex_pass);
                if excess as int <= sf {
                    0int
                } else {
                    excess as int - sf
                }
            },
        decreases j,
    {
        j = j - 1;
        proof {
            lemma_slack_from_nonneg(cols@, ws, j as int, flex_pass);
            lemma_slack_from_nonneg(cols@, ws, j as int + 1, flex_pass);
        }
        let is_active = match cols[j].sizing {
            ColumnSizing::Flex(_) => flex_pass,
            ColumnSizing::Hard(_) => !flex_pass,
        };
        if is_active {
            let w = v[j];
            let mn = cols[j].min_width;
            let slack: u128 = (w - mn) as u128;
            let cut: u128 = if cur < slack {
                cur
            } else {
                slack
            };
            v.set(j, w - (cut as u16));
            cur = cur - cut;
        }
    }
    cur
}

/// Computes the widths of all columns for `available` cells of content
/// width.
///
/// The result mirrors the allocation policy exactly
/// (`alloc_spec`): every column gets at least its minimum width, and
/// the total stays within the available width whenever the minimum
/// widths fit at all.  With `available == 0` every column falls back
/// to its minimum and the caller clips at render time.
pub fn allocate_widths(cols: &Vec<Column>, available: u16) -> (r: Vec<u16>)
    requires
        wf_columns(cols@),
    ensures
        r@.len() == cols@.len(),
        forall|i: int|
            0 <= i < cols@.len() ==> #[trigger] r@[i] as int == alloc_spec(
                cols@,
                available as int,
            )[i],
        forall|i: int| 0 <= i < cols@.len() ==> #[trigger] r@[i] >= cols@[i].min_width,
        sum_min_from(cols@, 0) <= available ==> sum_widths_from(r@, 0) <= available,
{
    let n = cols.len();
    let mut r: Vec<u16> = Vec::new();
    if available == 0 {
        let mut i: usize = 0;
        while i < n
            invariant
                i <= n,
                n == cols@.len(),
                r@.len() == i,
                forall|k: int| 0 <= k < i ==> #[trigger] r@[k] == cols@[k].min_width,
            decreases n - i,
        {
            r.push(cols[i].min_width);
            i = i + 1;
        }
        proof {
            if sum_min_from(cols@, 0) <= available {
                lemma_sum_widths_eq(
                    r@,
                    Seq::new(cols@.len(), |i: int| cols@[i].min_width as int),
                    0,
                );
                lemma_min_seq_sum(cols@, 0);
            }
        }
        return r;
    }
    // Pass 1: how much the hard columns reserve, and the total flex weight.
    let ghost avail = available as int;
    let mut hard_sum: u128 = 0;
    let mut weight_sum: u128 = 0;
    let mut i: usize = 0;
    while i < n
        invariant
            i <= n,
            n == cols@.len(),
            wf_columns(cols@),
            hard_sum as int == sum_hard_from(cols@, 0) - sum_hard_from(cols@, i as int),
            weight_sum as int == sum_weight_from(cols@, 0) - sum_weight_from(cols@, i as int),
            hard_sum <= i * 0x10000,
            weight_sum <= i * 0x100000000,
        decreases n - i,
    {
        match cols[i].sizing {
            ColumnSizing::Hard(w) => {
                let claim = if w >= cols[i].min_width {
                    w
                } else {
                    cols[i].min_width
                };
                hard_sum = hard_sum + claim as u128;
            },
            ColumnSizing::Flex(w) => {
                weight_sum = weight_sum + w as u128;
            },
        }
        i = i + 1;
    }
    assert(hard_sum as int == sum_hard_from(cols@, 0));
    assert(weight_sum as int == sum_weight_from(cols@, 0));
    // What is left for the flex columns.
    let rem: u16 = if (available as u128) > hard_sum {
        available - (hard_sum as u16)
    } else {
        0
    };
    assert(rem as int == rem_width(cols@, avail));
    // Pass 2: proportional shares, rounded down.
    let mut fsum: u128 = 0;
    let mut i: usize = 0;
    while i < n
        invariant
            i <= n,
            n == cols@.len(),
            wf_columns(cols@),
            weight_sum as int == sum_weight_from(cols@, 0),
            r@.len() == i,
            forall|k: int|
                0 <= k < i ==> #[trigger] r@[k] as int == (if is_flex_col(cols@[k]) {
                    flex_base(rem as int, flex_weight(cols@[k]), weight_sum as int)
                } else {
                    hard_claim(cols@[k])
                }),
            fsum as int == sum_base_from(cols@, rem as int, weight_sum as int, 0) - sum_base_from(
                cols@,
                rem as int,
                weight_sum as int,
                i as int,
            ),
            fsum <= i * 0x10000,
        decreases n - i,
    {
        match cols[i].sizing {
            ColumnSizing::Hard(w) => {
                let claim = if w >= cols[i].min_width {
                    w
                } else {
                    cols[i].min_width
                };
                r.push(claim);
            },
            ColumnSizing::Flex(w) => {
                proof {
                    lemma_weight_le_sum(cols@, i as int, 0);
                    assert(cols@[i as int].wf());
                    assert(weight_sum >= w as u128);
                    assert((rem as int) * (w as int) <= 0xFFFF * 0xFFFFFFFF) by (nonlinear_arith)
                        requires
                            0 <= rem as int <= 0xFFFF,
                            0 <= w as int <= 0xFFFFFFFF,
                    ;
                    assert((rem as int) * (w as int) >= 0) by (nonlinear_arith)
                        requires
                            rem as int >= 0,
                            w as int >= 0,
                    ;
                }
                let q: u128 = (rem as u128) * (w as u128) / weight_sum;
                let base: u16 = if q > rem as u128 {
                    rem
                } else {
                    q as u16
                };
                assert(base as int == flex_base(rem as int, w as int, weight_sum as int));
                r.push(base);
                fsum = fsum + base as u128;
            },
        }
        i = i + 1;
    }
    assert(fsum as int == sum_base_from(cols@, rem as int, weight_sum as int, 0));
    let leftover: u16 = if fsum >= rem as u128 {
        0
    } else {
        rem - (fsum as u16)
    };
    assert(leftover as int == spec_leftover(cols@, rem as int, weight_sum as int));
    // Pass 3: hand out the leftover cells and clamp up to the minima.
    let mut total: u128 = 0;
    let mut rank: usize = 0;
    let ghost ideal = ideal_seq(cols@, avail);
    let mut i: usize = 0;
    while i < n
        invariant
            i <= n,
            n == cols@.len(),
            wf_columns(cols@),
            weight_sum as int == sum_weight_from(cols@, 0),
            rem as int == rem_width(cols@, avail),
            leftover as int == spec_leftover(cols@, rem as int, weight_sum as int),
            fsum as int == sum_base_from(cols@, rem as int, weight_sum as int, 0),
            avail == available as int,
            avail > 0,
            ideal == ideal_seq(cols@, avail),
            r@.len() == n,
            rank <= i,
            rank == flex_rank(cols@, i as int),
            forall|k: int|
                i <= k < n ==> #[trigger] r@[k] as int == (if is_flex_col(cols@[k]) {
                    flex_base(rem as int, flex_weight(cols@[k]), weight_sum as int)
                } else {
                    hard_claim(cols@[k])
                }),
            forall|k: int| 0 <= k < i ==> #[trigger] r@[k] as int == ideal[k],
            total as int == sum_from(ideal, 0) - sum_from(ideal, i as int),
            total <= i * 0x10001,
        decreases n - i,
    {
        let is_flex = match cols[i].sizing {
            ColumnSizing::Flex(_) => true,
            ColumnSizing::Hard(_) => false,
        };
        let mut w: u16 = r[i];
        if is_flex {
            if rank < leftover as usize {
                proof {
                    lemma_base_le_sum(cols@, rem as int, weight_sum as int, i as int, 0);
                }
                assert(w < rem);
                w = w + 1;
            }
            rank = rank + 1;
        }
        if w < cols[i].min_width {
            w = cols[i].min_width;
        }
        assert(w as int == ideal[i as int]);
        r.set(i, w);
        total = total + w as u128;
        i = i + 1;
    }
    assert(total as int == sum_from(ideal, 0));
    // Passes 4 and 5: shrink any overflow away, flex columns first.
    let excess: u128 = if total > available as u128 {
        total - available as u128
    } else {
        0
    };
    let ghost e1 = excess as int;
    proof {
        assert(forall|k: int|
            0 <= k < n ==> pass_active(cols@[k], true) ==> r@[k] >= #[trigger] cols@[k].min_width);
    }
    let ghost before1 = r@;
    let rem_e = shrink_pass(&mut r, cols, excess, true);
    let ghost s1 = shrunk_seq(cols@, ideal, e1, true);
    proof {
        assert(before1.map_values(|x: u16| x as int) =~= ideal);
        assert(forall|k: int| 0 <= k < n ==> #[trigger] r@[k] as int == s1[k]);
        lemma_slack_from_nonneg(cols@, ideal, 0, true);
        assert(forall|k: int|
            0 <= k < n && pass_active(cols@[k], false) ==> r@[k] >= #[trigger] cols@[k].min_width);
    }
    let ghost before2 = r@;
    let _unpaid = shrink_pass(&mut r, cols, rem_e, false);
    proof {
        let fin = alloc_spec(cols@, avail);
        assert(before2.map_values(|x: u16| x as int) =~= s1);
        assert(forall|k: int| 0 <= k < n ==> #[trigger] r@[k] as int == fin[k]);
        // Every column keeps its minimum width.
        assert(forall|k: int|
            0 <= k < n ==> #[trigger] r@[k] as int >= cols@[k].min_width) by {
            assert(forall|k: int| 0 <= k < n ==> #[trigger] ideal[k] >= cols@[k].min_width);
            assert(forall|k: int| 0 <= k < n ==> #[trigger] s1[k] >= cols@[k].min_width);
        }
        // The total fits whenever the minima fit.
        if sum_min_from(cols@, 0) <= avail {
            let sf1 = slack_from(cols@, ideal, 0, true);
            let sf2 = slack_from(cols@, s1, 0, false);
            let e2 = if e1 <= sf1 {
                0int
            } else {
                e1 - sf1
            };
            lemma_shrunk_sum(cols@, ideal, e1, true, 0);
            lemma_shrunk_sum(cols@, s1, e2, false, 0);
            lemma_slack_congruent(cols@, s1, ideal, 0, false);
            lemma_slack_split(cols@, ideal, 0);
            lemma_slack_from_nonneg(cols@, s1, 0, false);
            assert(sum_from(fin, 0) <= avail);
            lemma_sum_widths_eq(r@, fin, 0);
        }
    }
    r
}

/// The cached result of the last width allocation, so an unchanged
/// draw area does not recompute it every frame.
pub struct WidthCache {
    pub cached_for: Option<u16>,
    pub cached_widths: Vec<u16>,
}

impl WidthCache {
    /// A filled cache holds exactly the allocation for the width it
    /// was computed for.
    pub open spec fn consistent(self, cols: Seq<Column>) -> bool {
        match self.cached_for {
            Some(a) => {
                &&& self.cached_widths@.len() == cols.len()
                &&& forall|i: int|
                    0 <= i < cols.len() ==> #[trigger] self.cached_widths@[i] as int == alloc_spec(
                        cols,
                        a as int,
                    )[i]
            },
            None => true,
        }
    }

    /// An empty cache.
    pub fn new() -> (c: WidthCache)
        ensures
            c.cached_for is None,
            forall|cols: Seq<Column>| c.consistent(cols),
    {
        WidthCache { cached_for: None, cached_widths: Vec::new() }
    }

    /// The widths for `available` cells, reusing the cache when the
    /// available width has not changed and refilling it otherwise.
    pub fn widths(&mut self, cols: &Vec<Column>, available: u16) -> (w: &Vec<u16>)
        requires
            wf_columns(cols@),
            old(self).consistent(cols@),
        ensures
            final(self).cached_for == Some(available),
            final(self).consistent(cols@),
            w == &final(self).cached_widths,
            w@.len() == cols@.len(),
            forall|i: int|
                0 <= i < cols@.len() ==> #[trigger] w@[i] as int == alloc_spec(
                    cols@,
                    available as int,
                )[i],
    {
        let hit = match self.cached_for {
            Some(a) => a == available,
            None => false,
        };
        if !hit {
            self.cached_widths = allocate_widths(cols, available);
            self.cached_for = Some(available);
        }
        &self.cached_widths
    }
}

/// The sum of the fallback minimum-width allocation is the sum of the
/// minima.
proof fn lemma_min_seq_sum(cols: Seq<Column>, m: int)
    ensures
        sum_from(Seq::new(cols.len(), |i: int| cols[i].min_width as int), m) == sum_min_from(
            cols,
            m,
        ),
    decreases cols.len() - m,
{
    if 0 <= m < cols.len() {
        lemma_min_seq_sum(cols, m + 1);
    }
}

} // verus!
