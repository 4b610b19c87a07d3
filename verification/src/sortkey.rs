//! Sort-key comparison.
//!
//! Upstream data is textual, so a key that is a plain decimal number
//! compares numerically and everything else compares lexicographically
//! by character code.  Whether a column compares numerically is
//! decided per column from the data at sort time: only when every key
//! of the column is numeric.

use vstd::prelude::*;

verus! {

/// A decimal digit.
pub open spec fn is_digit(c: char) -> bool {
    ('0' as int) <= (c as int) <= ('9' as int)
}

/// Every character is a decimal digit.
pub open spec fn all_digits(s: Seq<char>) -> bool {
    forall|i: int| 0 <= i < s.len() ==> is_digit(#[trigger] s[i])
}

/// The value of a digit string.
pub open spec fn digits_val(s: Seq<char>) -> int
    decreases s.len(),
{
    if s.len() == 0 {
        0
    } else {
        digits_val(s.drop_last()) * 10 + (s.last() as int - ('0' as int))
    }
}

/// A key that compares numerically: a nonempty digit string whose
/// value a `u64` can hold.
pub open spec fn is_numeric_key(s: Seq<char>) -> bool {
    s.len() > 0 && all_digits(s) && digits_val(s) <= u64::MAX
}

/// Strict lexicographic order on character sequences, by code point.
pub open spec fn lex_lt(a: Seq<char>, b: Seq<char>) -> bool
    decreases a.len(),
{
    if b.len() == 0 {
        false
    } else if a.len() == 0 {
        true
    } else if (a[0] as int) < (b[0] as int) {
        true
    } else if a[0] == b[0] {
        lex_lt(a.drop_first(), b.drop_first())
    } else {
        false
    }
}

/// Strict order between two keys under one comparison mode.
pub open spec fn key_lt(a: Seq<char>, b: Seq<char>, numeric: bool) -> bool {
    if numeric {
        digits_val(a) < digits_val(b)
    } else {
        lex_lt(a, b)
    }
}

/// Key equality under one comparison mode: numeric keys with the same
/// value tie even when written differently.
pub open spec fn key_eq(a: Seq<char>, b: Seq<char>, numeric: bool) -> bool {
    if numeric {
        digits_val(a) == digits_val(b)
    } else {
        a == b
    }
}

/// The digit value never goes down as the string grows.
pub proof fn lemma_digits_val_nonneg(s: Seq<char>)
    requires
        all_digits(s),
    ensures
        digits_val(s) >= 0,
    decreases s.len(),
{
    if s.len() > 0 {
        assert(all_digits(s.drop_last()));
        lemma_digits_val_nonneg(s.drop_last());
    }
}

/// A prefix of a digit string never has a larger value than the whole.
pub proof fn lemma_digits_val_prefix_le(s: Seq<char>, i: int, j: int)
    requires
        all_digits(s),
        0 <= i <= j <= s.len(),
    ensures
        digits_val(s.take(i)) <= digits_val(s.take(j)),
    decreases j - i,
{
    if i < j {
        lemma_digits_val_prefix_le(s, i, j - 1);
        assert(s.take(j).drop_last() =~= s.take(j - 1));
        assert(all_digits(s.take(j - 1)));
        lemma_digits_val_nonneg(s.take(j - 1));
    }
}

/// Two distinct sequences are lexicographically ordered one way or
/// the other.
pub proof fn lemma_lex_lt_total(a: Seq<char>, b: Seq<char>)
    ensures
        lex_lt(a, b) || lex_lt(b, a) || a == b,
    decreases a.len(),
{
    if a.len() == 0 {
        if b.len() == 0 {
            assert(a =~= b);
        }
    } else if b.len() > 0 {
        if a[0] == b[0] {
            lemma_lex_lt_total(a.drop_first(), b.drop_first());
            if a.drop_first() == b.drop_first() {
                assert(a.drop_first().len() == a.len() - 1);
                assert(b.drop_first().len() == b.len() - 1);
                assert forall|k: int| 0 <= k < a.len() implies a[k] == b[k] by {
                    if k > 0 {
                        assert(a[k] == a.drop_first()[k - 1]);
                        assert(b[k] == b.drop_first()[k - 1]);
                    }
                }
                assert(a =~= b);
            }
        }
    }
}

/// Lexicographic order is irreflexive.
pub proof fn lemma_lex_lt_irrefl(a: Seq<char>)
    ensures
        !lex_lt(a, a),
    decreases a.len(),
{
    if a.len() > 0 {
        lemma_lex_lt_irrefl(a.drop_first());
    }
}

/// Two sequences are never each lexicographically below the other.
pub proof fn lemma_lex_lt_asym(a: Seq<char>, b: Seq<char>)
    ensures
        !(lex_lt(a, b) && lex_lt(b, a)),
{
    if lex_lt(a, b) && lex_lt(b, a) {
        lemma_lex_lt_trans(a, b, a);
        lemma_lex_lt_irrefl(a);
    }
}

/// Lexicographic order is transitive.
pub proof fn lemma_lex_lt_trans(a: Seq<char>, b: Seq<char>, c: Seq<char>)
    requires
        lex_lt(a, b),
        lex_lt(b, c),
    ensures
        lex_lt(a, c),
    decreases a.len(),
{
    if a.len() > 0 && b.len() > 0 && c.len() > 0 {
        if a[0] == b[0] && b[0] == c[0] {
            lemma_lex_lt_trans(a.drop_first(), b.drop_first(), c.drop_first());
        }
    }
}

/// A step of the character-by-character comparison: with the first
/// `i` characters equal, the order is decided by position `i`.
pub proof fn lemma_lex_lt_common(a: Seq<char>, b: Seq<char>, i: int)
    requires
        0 <= i <= a.len(),
        i <= b.len(),
        forall|k: int| 0 <= k < i ==> a[k] == b[k],
    ensures
        (i < a.len() && i < b.len() && (a[i] as int) < (b[i] as int)) ==> lex_lt(a, b),
        (i == a.len() && i < b.len()) ==> lex_lt(a, b),
        (i == a.len() && i == b.len()) ==> a == b,
    decreases i,
{
    if i == 0 {
        if a.len() == 0 && b.len() == 0 {
            assert(a =~= b);
        }
    } else {
        lemma_lex_lt_common(a.drop_first(), b.drop_first(), i - 1);
        if i == a.len() && i == b.len() {
            assert(a.drop_first() == b.drop_first());
            assert(a.drop_first().len() == a.len() - 1);
            assert(b.drop_first().len() == b.len() - 1);
            assert forall|k: int| 0 <= k < a.len() implies a[k] == b[k] by {
                if k > 0 {
                    assert(a[k] == a.drop_first()[k - 1]);
                    assert(b[k] == b.drop_first()[k - 1]);
                }
            }
            assert(a =~= b);
        }
    }
}

/// Parses a key as a decimal `u64`; fails exactly on the keys that do
/// not compare numerically.
pub fn parse_numeric(s: &String) -> (r: Option<u64>)
    ensures
        match r {
            Some(v) => is_numeric_key(s@) && v as int == digits_val(s@),
            None => !is_numeric_key(s@),
        },
{
    let n = s.as_str().unicode_len();
    if n == 0 {
        return None;
    }
    let mut val: u64 = 0;
    let mut i: usize = 0;
    while i < n
        invariant
            0 < n == s@.len(),
            i <= n,
            all_digits(s@.take(i as int)),
            val as int == digits_val(s@.take(i as int)),
        decreases n - i,
    {
        let c = s.as_str().get_char(i);
        let code = c as u32;
        if code < 48 || code > 57 {
            assert(!is_digit(s@[i as int]));
            return None;
        }
        let d: u64 = (code - 48) as u64;
        let hi = match val.checked_mul(10) {
            Some(h) => h,
            None => {
                proof {
                    lemma_overflow_means_not_numeric(s@, i as int, val as int, d as int);
                }
                return None;
            },
        };
        let v2 = match hi.checked_add(d) {
            Some(v) => v,
            None => {
                proof {
                    lemma_overflow_means_not_numeric(s@, i as int, val as int, d as int);
                }
                return None;
            },
        };
        proof {
            assert(s@.take(i + 1).drop_last() =~= s@.take(i as int));
        }
        val = v2;
        i = i + 1;
    }
    proof {
        assert(s@.take(n as int) =~= s@);
    }
    Some(val)
}

/// If the running value overflows a `u64` at some digit, the whole
/// key's value does not fit either.
proof fn lemma_overflow_means_not_numeric(s: Seq<char>, i: int, val: int, d: int)
    requires
        0 <= i < s.len(),
        all_digits(s.take(i)),
        is_digit(s[i]),
        val == digits_val(s.take(i)),
        d == s[i] as int - ('0' as int),
        val * 10 + d > u64::MAX,
    ensures
        !is_numeric_key(s),
{
    if all_digits(s) {
        assert(s.take(i + 1).drop_last() =~= s.take(i));
        assert(digits_val(s.take(i + 1)) == val * 10 + d);
        lemma_digits_val_prefix_le(s, i + 1, s.len() as int);
        assert(s.take(s.len() as int) =~= s);
    }
}

/// How two strings compare.
#[derive(Clone, Copy, PartialEq, Eq, Structural, Debug)]
pub enum KeyOrder {
    Less,
    Equal,
    Greater,
}

/// Compares two strings lexicographically by character code.
pub fn str_order(a: &String, b: &String) -> (r: KeyOrder)
    ensures
        r == KeyOrder::Less <==> lex_lt(a@, b@),
        r == KeyOrder::Equal <==> a@ == b@,
        r == KeyOrder::Greater <==> lex_lt(b@, a@),
{
    let na = a.as_str().unicode_len();
    let nb = b.as_str().unicode_len();
    let mut i: usize = 0;
    loop
        invariant
            na == a@.len(),
            nb == b@.len(),
            i <= na,
            i <= nb,
            forall|k: int| 0 <= k < i ==> a@[k] == b@[k],
        decreases na - i,
    {
        proof {
            lemma_lex_lt_common(a@, b@, i as int);
            lemma_lex_lt_common(b@, a@, i as int);
            lemma_lex_lt_irrefl(a@);
            lemma_lex_lt_irrefl(b@);
            lemma_lex_lt_asym(a@, b@);
        }
        if i >= na || i >= nb {
            if na == nb {
                assert(a@ == b@);
                return KeyOrder::Equal;
            } else if na < nb {
                assert(lex_lt(a@, b@));
                return KeyOrder::Less;
            } else {
                assert(lex_lt(b@, a@));
                return KeyOrder::Greater;
            }
        }
        let ca = a.as_str().get_char(i);
        let cb = b.as_str().get_char(i);
        let va = ca as u32;
        let vb = cb as u32;
        if va < vb {
            assert(lex_lt(a@, b@));
            return KeyOrder::Less;
        } else if vb < va {
            assert(lex_lt(b@, a@));
            return KeyOrder::Greater;
        }
        assert(a@[i as int] == b@[i as int]);
        i = i + 1;
    }
}

} // verus!
