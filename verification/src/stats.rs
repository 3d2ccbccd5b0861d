//! Mathematical summaries of a sequence of fee magnitudes: total, true
//! minimum and maximum, and the integer-truncated average, with the
//! lemmas the streaming aggregators rest on.

use vstd::prelude::*;
use vstd::arithmetic::div_mod::{lemma_div_is_ordered, lemma_div_multiples_vanish};

verus! {

/// Total of the fees, as an unbounded integer.
pub open spec fn sum_fees(s: Seq<u64>) -> int
    decreases s.len(),
{
    if s.len() == 0 {
        0
    } else {
        sum_fees(s.drop_last()) + s.last()
    }
}

/// Smallest fee of a non-empty sequence.
pub open spec fn min_fee(s: Seq<u64>) -> u64
    recommends
        s.len() > 0,
    decreases s.len(),
{
    if s.len() <= 1 {
        s[0]
    } else if s.last() < min_fee(s.drop_last()) {
        s.last()
    } else {
        min_fee(s.drop_last())
    }
}

/// Largest fee of a non-empty sequence.
pub open spec fn max_fee(s: Seq<u64>) -> u64
    recommends
        s.len() > 0,
    decreases s.len(),
{
    if s.len() <= 1 {
        s[0]
    } else if s.last() > max_fee(s.drop_last()) {
        s.last()
    } else {
        max_fee(s.drop_last())
    }
}

/// Integer-truncated mean; an empty sequence averages to the sentinel 0.
pub open spec fn avg_fee(s: Seq<u64>) -> int {
    if s.len() == 0 {
        0
    } else {
        sum_fees(s) / s.len() as int
    }
}

/// The total is non-negative and at most one maximal fee per element.
pub proof fn lemma_sum_bounds(s: Seq<u64>)
    ensures
        0 <= sum_fees(s) <= s.len() * u64::MAX,
    decreases s.len(),
{
    if s.len() > 0 {
        lemma_sum_bounds(s.drop_last());
        assert(s.len() * u64::MAX == (s.len() - 1) * u64::MAX + u64::MAX) by (nonlinear_arith);
    }
}

/// Summing from the front: the total is the first fee plus the rest.
pub proof fn lemma_sum_drop_first(s: Seq<u64>)
    requires
        s.len() > 0,
    ensures
        sum_fees(s) == s[0] + sum_fees(s.drop_first()),
    decreases s.len(),
{
    if s.len() == 1 {
        assert(s.drop_first() =~= Seq::<u64>::empty());
        assert(s.drop_last() =~= Seq::<u64>::empty());
    } else {
        assert(s.drop_last().drop_first() =~= s.drop_first().drop_last());
        lemma_sum_drop_first(s.drop_last());
        assert(s.drop_first().last() == s.last());
        assert(sum_fees(s.drop_first()) == sum_fees(s.drop_first().drop_last())
            + s.drop_first().last());
    }
}

/// The minimum is a lower bound on every element.
pub proof fn lemma_min_le_all(s: Seq<u64>, i: int)
    requires
        0 <= i < s.len(),
    ensures
        min_fee(s) <= s[i],
    decreases s.len(),
{
    if s.len() > 1 && i < s.len() - 1 {
        lemma_min_le_all(s.drop_last(), i);
    }
}

/// The minimum is attained at some element.
pub proof fn lemma_min_in(s: Seq<u64>)
    requires
        s.len() > 0,
    ensures
        exists|i: int| 0 <= i < s.len() && s[i] == min_fee(s),
    decreases s.len(),
{
    if s.len() > 1 && s.last() >= min_fee(s.drop_last()) {
        lemma_min_in(s.drop_last());
        let i = choose|i: int| 0 <= i < s.drop_last().len() && s.drop_last()[i] == min_fee(
            s.drop_last(),
        );
        assert(s[i] == min_fee(s));
    } else {
        assert(s[s.len() - 1] == min_fee(s));
    }
}

/// The maximum is an upper bound on every element.
pub proof fn lemma_max_ge_all(s: Seq<u64>, i: int)
    requires
        0 <= i < s.len(),
    ensures
        max_fee(s) >= s[i],
    decreases s.len(),
{
    if s.len() > 1 && i < s.len() - 1 {
        lemma_max_ge_all(s.drop_last(), i);
    }
}

/// The maximum is attained at some element.
pub proof fn lemma_max_in(s: Seq<u64>)
    requires
        s.len() > 0,
    ensures
        exists|i: int| 0 <= i < s.len() && s[i] == max_fee(s),
    decreases s.len(),
{
    if s.len() > 1 && s.last() <= max_fee(s.drop_last()) {
        lemma_max_in(s.drop_last());
        let i = choose|i: int| 0 <= i < s.drop_last().len() && s.drop_last()[i] == max_fee(
            s.drop_last(),
        );
        assert(s[i] == max_fee(s));
    } else {
        assert(s[s.len() - 1] == max_fee(s));
    }
}

/// Removing the oldest element keeps the minimum, provided the removed
/// element is not the (unique occurrence of the) minimum.
pub proof fn lemma_min_drop_first_non_extremal(s: Seq<u64>)
    requires
        s.len() >= 2,
        s[0] != min_fee(s),
    ensures
        min_fee(s.drop_first()) == min_fee(s),
{
    let t = s.drop_first();
    lemma_min_in(s);
    let i = choose|i: int| 0 <= i < s.len() && s[i] == min_fee(s);
    assert(t[i - 1] == min_fee(s));
    lemma_min_le_all(t, i - 1);
    lemma_min_in(t);
    let j = choose|j: int| 0 <= j < t.len() && t[j] == min_fee(t);
    lemma_min_le_all(s, j + 1);
}

/// Removing the oldest element keeps the maximum, provided the removed
/// element is not the (unique occurrence of the) maximum.
pub proof fn lemma_max_drop_first_non_extremal(s: Seq<u64>)
    requires
        s.len() >= 2,
        s[0] != max_fee(s),
    ensures
        max_fee(s.drop_first()) == max_fee(s),
{
    let t = s.drop_first();
    lemma_max_in(s);
    let i = choose|i: int| 0 <= i < s.len() && s[i] == max_fee(s);
    assert(t[i - 1] == max_fee(s));
    lemma_max_ge_all(t, i - 1);
    lemma_max_in(t);
    let j = choose|j: int| 0 <= j < t.len() && t[j] == max_fee(t);
    lemma_max_ge_all(s, j + 1);
}

/// The truncated average of a non-empty sequence fits in a fee: it is
/// bounded by the largest fee present.
pub proof fn lemma_avg_le_max(s: Seq<u64>)
    requires
        s.len() > 0,
    ensures
        0 <= avg_fee(s) <= max_fee(s),
{
    let n = s.len() as int;
    lemma_sum_le_n_max(s);
    lemma_sum_bounds(s);
    lemma_div_is_ordered(sum_fees(s), n * max_fee(s) as int, n);
    lemma_div_multiples_vanish(max_fee(s) as int, n);
}

/// The total is at most the length times the largest fee present.
proof fn lemma_sum_le_n_max(s: Seq<u64>)
    requires
        s.len() > 0,
    ensures
        sum_fees(s) <= s.len() * max_fee(s),
    decreases s.len(),
{
    if s.len() == 1 {
        assert(sum_fees(s) == sum_fees(s.drop_last()) + s.last());
    } else {
        lemma_sum_le_n_max(s.drop_last());
        let m = max_fee(s);
        let mp = max_fee(s.drop_last());
        assert(mp <= m) by {
            lemma_max_in(s.drop_last());
            let i = choose|i: int|
                0 <= i < s.drop_last().len() && s.drop_last()[i] == max_fee(s.drop_last());
            lemma_max_ge_all(s, i);
        }
        assert((s.len() - 1) * mp + m <= s.len() * m) by (nonlinear_arith)
            requires
                s.len() >= 1,
                0 <= mp <= m,
        ;
    }
}

} // verus!
