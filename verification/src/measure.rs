//! Sums, extremes and means of sequences of scalars.

use vstd::prelude::*;
use crate::fixed::{lemma_quotient_monotonic, lemma_quotient_remainder, quotient, Fixed};
use crate::grid::raw_values;

verus! {

/// The sum of a sequence of raw counts.
pub open spec fn total(s: Seq<int>) -> int
    decreases s.len(),
{
    if s.len() == 0 {
        0
    } else {
        total(s.drop_last()) + s.last()
    }
}

/// The largest raw count of a sequence; zero for the empty sequence.
pub open spec fn peak(s: Seq<int>) -> int
    decreases s.len(),
{
    if s.len() == 0 {
        0
    } else if s.len() == 1 || s.last() >= peak(s.drop_last()) {
        s.last()
    } else {
        peak(s.drop_last())
    }
}

/// The smallest raw count of a sequence; zero for the empty sequence.
pub open spec fn trough(s: Seq<int>) -> int
    decreases s.len(),
{
    if s.len() == 0 {
        0
    } else if s.len() == 1 || s.last() <= trough(s.drop_last()) {
        s.last()
    } else {
        trough(s.drop_last())
    }
}

/// The mean of a non-empty sequence of raw counts, rounded toward zero.
pub open spec fn mean(s: Seq<int>) -> int {
    quotient(total(s), s.len() as int)
}

/// The peak is at least every element, and is one of them when there is one.
pub proof fn lemma_peak_is_maximum(s: Seq<int>)
    ensures
        forall|i: int| 0 <= i < s.len() ==> s[i] <= peak(s),
        s.len() > 0 ==> exists|i: int| 0 <= i < s.len() && s[i] == peak(s),
    decreases s.len(),
{
    if s.len() > 0 {
        let front = s.drop_last();
        lemma_peak_is_maximum(front);
        assert forall|i: int| 0 <= i < s.len() implies s[i] <= peak(s) by {
            if i < s.len() - 1 {
                assert(front[i] == s[i]);
            }
        }
        if s.len() == 1 || s.last() >= peak(front) {
            assert(s[s.len() - 1] == peak(s));
        } else {
            assert(front.len() > 0);
            let i = choose|i: int| 0 <= i < front.len() && front[i] == peak(front);
            assert(s[i] == peak(s));
        }
    }
}

/// A sum lies between the length times the least and the length times the
/// greatest value its terms may take.
pub proof fn lemma_total_bounded(s: Seq<int>, low: int, high: int)
    requires
        forall|i: int| 0 <= i < s.len() ==> low <= #[trigger] s[i] && s[i] <= high,
    ensures
        s.len() * low <= total(s) <= s.len() * high,
    decreases s.len(),
{
    if s.len() > 0 {
        let front = s.drop_last();
        assert forall|i: int| 0 <= i < front.len() implies low <= #[trigger] front[i] && front[i]
            <= high by {
            assert(front[i] == s[i]);
        }
        lemma_total_bounded(front, low, high);
        assert(s.len() * low == front.len() * low + low) by (nonlinear_arith)
            requires
                s.len() == front.len() + 1,
        ;
        assert(s.len() * high == front.len() * high + high) by (nonlinear_arith)
            requires
                s.len() == front.len() + 1,
        ;
    } else {
        assert(s.len() * low == 0 && s.len() * high == 0) by (nonlinear_arith)
            requires
                s.len() == 0,
        ;
    }
}

/// The sum of the raw counts of `v`.
pub fn total_of(v: &Vec<Fixed>) -> (r: i128)
    ensures
        r == total(raw_values(v@)),
        v@.len() * (i64::MIN as int) <= r <= v@.len() * (i64::MAX as int),
{
    let ghost s = raw_values(v@);
    let mut sum: i128 = 0;
    let mut i: usize = 0;
    proof {
        lemma_total_bounded(s.take(0), i64::MIN as int, i64::MAX as int);
    }
    while i < v.len()
        invariant
            s == raw_values(v@),
            i <= v@.len(),
            sum == total(s.take(i as int)),
            i * (i64::MIN as int) <= sum <= i * (i64::MAX as int),
        decreases v@.len() - i,
    {
        proof {
            assert(s.take(i + 1).drop_last() =~= s.take(i as int));
            assert(s.take(i + 1).last() == v@[i as int]@);
            assert((i + 1) * (i64::MIN as int) == i * (i64::MIN as int) + i64::MIN)
                by (nonlinear_arith);
            assert((i + 1) * (i64::MAX as int) == i * (i64::MAX as int) + i64::MAX)
                by (nonlinear_arith);
            assert(i * (i64::MAX as int) <= 0xffff_ffff_ffff_ffff * 0x7fff_ffff_ffff_ffff)
                by (nonlinear_arith)
                requires
                    0 <= i <= 0xffff_ffff_ffff_ffff,
            ;
            assert(i * (i64::MIN as int) >= 0xffff_ffff_ffff_ffff * (-0x8000_0000_0000_0000))
                by (nonlinear_arith)
                requires
                    0 <= i <= 0xffff_ffff_ffff_ffff,
            ;
        }
        sum = sum + v[i].raw as i128;
        i = i + 1;
    }
    proof {
        assert(s.take(v@.len() as int) =~= s);
    }
    sum
}

/// The largest element of `v`, or `None` when `v` is empty.
pub fn peak_of(v: &Vec<Fixed>) -> (r: Option<Fixed>)
    ensures
        match r {
            Some(m) => v@.len() > 0 && m@ == peak(raw_values(v@)),
            None => v@.len() == 0,
        },
{
    if v.len() == 0 {
        return None;
    }
    let ghost s = raw_values(v@);
    let mut best = v[0];
    let mut i: usize = 1;
    proof {
        assert(s.take(1).drop_last() =~= Seq::<int>::empty());
        assert(peak(s.take(1)) == s[0]);
    }
    while i < v.len()
        invariant
            s == raw_values(v@),
            1 <= i <= v@.len(),
            best@ == peak(s.take(i as int)),
        decreases v@.len() - i,
    {
        proof {
            assert(s.take(i + 1).drop_last() =~= s.take(i as int));
            assert(s.take(i + 1).last() == v@[i as int]@);
        }
        if v[i].raw >= best.raw {
            best = v[i];
        }
        i = i + 1;
    }
    proof {
        assert(s.take(v@.len() as int) =~= s);
    }
    Some(best)
}

/// The smallest element of `v`, or `None` when `v` is empty.
pub fn trough_of(v: &Vec<Fixed>) -> (r: Option<Fixed>)
    ensures
        match r {
            Some(m) => v@.len() > 0 && m@ == trough(raw_values(v@)),
            None => v@.len() == 0,
        },
{
    if v.len() == 0 {
        return None;
    }
    let ghost s = raw_values(v@);
    let mut best = v[0];
    let mut i: usize = 1;
    proof {
        assert(s.take(1).drop_last() =~= Seq::<int>::empty());
        assert(trough(s.take(1)) == s[0]);
    }
    while i < v.len()
        invariant
            s == raw_values(v@),
            1 <= i <= v@.len(),
            best@ == trough(s.take(i as int)),
        decreases v@.len() - i,
    {
        proof {
            assert(s.take(i + 1).drop_last() =~= s.take(i as int));
            assert(s.take(i + 1).last() == v@[i as int]@);
        }
        if v[i].raw <= best.raw {
            best = v[i];
        }
        i = i + 1;
    }
    proof {
        assert(s.take(v@.len() as int) =~= s);
    }
    Some(best)
}

/// The mean of a sum of `count` carrier values fits the carrier.
pub proof fn lemma_mean_fits(sum: int, count: int)
    requires
        count > 0,
        count * (i64::MIN as int) <= sum <= count * (i64::MAX as int),
    ensures
        i64::MIN <= quotient(sum, count) <= i64::MAX,
{
    lemma_quotient_monotonic(sum, count * (i64::MAX as int), count);
    lemma_quotient_monotonic(count * (i64::MIN as int), sum, count);
    lemma_quotient_remainder(count * (i64::MAX as int), count);
    lemma_quotient_remainder(count * (i64::MIN as int), count);
    let top = quotient(count * (i64::MAX as int), count);
    let bottom = quotient(count * (i64::MIN as int), count);
    assert(top == i64::MAX) by (nonlinear_arith)
        requires
            count > 0,
            0 <= count * (i64::MAX as int) - count * top < count,
    ;
    assert(bottom == i64::MIN) by (nonlinear_arith)
        requires
            count > 0,
            -count < count * (i64::MIN as int) - count * bottom <= 0,
    ;
}

/// The mean of `v` rounded toward zero, or `None` when `v` is empty.
pub fn mean_of(v: &Vec<Fixed>) -> (r: Option<Fixed>)
    ensures
        match r {
            Some(m) => v@.len() > 0 && m@ == mean(raw_values(v@)),
            None => v@.len() == 0,
        },
{
    if v.len() == 0 {
        return None;
    }
    let sum = total_of(v);
    proof {
        lemma_mean_fits(sum as int, v@.len() as int);
    }
    let q: i128 = sum / (v.len() as i128);
    Some(Fixed { raw: q as i64 })
}

} // verus!
