//! Election scores: their shape, their ordering, and their evaluation from
//! aggregated backings.

use vstd::prelude::*;

use crate::types::{AccountId, PartialBackings};

verus! {

/// The denominator of the solution-improvement threshold: a threshold is a
/// number of parts per billion applied to a score component.
pub const PERBILL_ONE: u32 = 1_000_000_000;

/// The quality of an election outcome.
///
/// Scores are ordered lexicographically: a higher minimal stake wins; ties
/// are broken by a higher total stake, further ties by a *lower* sum of
/// squared stakes (lower variance).
#[derive(Clone, Copy, PartialEq, Eq, Structural, Debug)]
pub struct ElectionScore {
    /// The smallest total backing of any winner.
    pub minimal_stake: u128,
    /// The sum of all winners' total backings, saturating.
    pub sum_stake: u128,
    /// The sum of the squares of the winners' total backings, saturating.
    pub sum_stake_squared: u128,
}

/// `a * b`, saturating at `u128::MAX`.
pub open spec fn sat_mul_spec(a: u128, b: u128) -> u128 {
    if a * b > u128::MAX {
        u128::MAX
    } else {
        (a * b) as u128
    }
}

/// `a * b`, saturating at `u128::MAX`.
pub fn sat_mul(a: u128, b: u128) -> (r: u128)
    ensures
        r == sat_mul_spec(a, b),
{
    match a.checked_mul(b) {
        Some(v) => v,
        None => u128::MAX,
    }
}

/// The minimal total backing over aggregated backings; zero when there is no
/// winner at all.
pub open spec fn minimal_stake_of(agg: Seq<(AccountId, PartialBackings)>) -> u128
    decreases agg.len(),
{
    if agg.len() == 0 {
        0
    } else if agg.len() == 1 {
        agg[0].1.total
    } else {
        let rest = minimal_stake_of(agg.drop_last());
        let last = agg.last().1.total;
        if last < rest {
            last
        } else {
            rest
        }
    }
}

/// The saturating sum of all total backings.
pub open spec fn sum_stake_of(agg: Seq<(AccountId, PartialBackings)>) -> u128
    decreases agg.len(),
{
    if agg.len() == 0 {
        0
    } else {
        sum_stake_of(agg.drop_last()).saturating_add(agg.last().1.total)
    }
}

/// The saturating sum of the squared total backings.
pub open spec fn sum_stake_squared_of(agg: Seq<(AccountId, PartialBackings)>) -> u128
    decreases agg.len(),
{
    if agg.len() == 0 {
        0
    } else {
        sum_stake_squared_of(agg.drop_last()).saturating_add(
            sat_mul_spec(agg.last().1.total, agg.last().1.total),
        )
    }
}

/// The score of aggregated backings: one entry per winner, each carrying the
/// winner's overall total backing.
pub open spec fn evaluate_backings_spec(agg: Seq<(AccountId, PartialBackings)>) -> ElectionScore {
    ElectionScore {
        minimal_stake: minimal_stake_of(agg),
        sum_stake: sum_stake_of(agg),
        sum_stake_squared: sum_stake_squared_of(agg),
    }
}

/// Compute the score of aggregated backings, exactly as
/// [`evaluate_backings_spec`] states it.
pub fn evaluate_backings(agg: &Vec<(AccountId, PartialBackings)>) -> (r: ElectionScore)
    ensures
        r == evaluate_backings_spec(agg@),
{
    let mut minimal: u128 = 0;
    let mut sum: u128 = 0;
    let mut sum_squared: u128 = 0;
    let mut i: usize = 0;
    while i < agg.len()
        invariant
            i <= agg.len(),
            minimal == minimal_stake_of(agg@.subrange(0, i as int)),
            sum == sum_stake_of(agg@.subrange(0, i as int)),
            sum_squared == sum_stake_squared_of(agg@.subrange(0, i as int)),
        decreases agg.len() - i,
    {
        let total = agg[i].1.total;
        proof {
            assert(agg@.subrange(0, i + 1).drop_last() =~= agg@.subrange(0, i as int));
            assert(agg@.subrange(0, i + 1).last() == agg@[i as int]);
        }
        if i == 0 {
            minimal = total;
        } else if total < minimal {
            minimal = total;
        }
        sum = sum.saturating_add(total);
        sum_squared = sum_squared.saturating_add(sat_mul(total, total));
        i = i + 1;
    }
    proof {
        assert(agg@.subrange(0, agg@.len() as int) =~= agg@);
    }
    ElectionScore { minimal_stake: minimal, sum_stake: sum, sum_stake_squared: sum_squared }
}

/// Strict lexicographic comparison of two scores: higher minimal stake, then
/// higher total stake, then lower sum of squares.
pub open spec fn lex_gt(a: ElectionScore, b: ElectionScore) -> bool {
    ||| a.minimal_stake > b.minimal_stake
    ||| (a.minimal_stake == b.minimal_stake && a.sum_stake > b.sum_stake)
    ||| (a.minimal_stake == b.minimal_stake && a.sum_stake == b.sum_stake
        && a.sum_stake_squared < b.sum_stake_squared)
}

/// `ceil(x * parts / PERBILL_ONE)`, saturating at `u128::MAX`.
pub open spec fn perbill_mul_ceil_spec(x: u128, parts: u32) -> u128 {
    let v = (x * parts + (PERBILL_ONE - 1)) / (PERBILL_ONE as int);
    if v > u128::MAX {
        u128::MAX
    } else {
        v as u128
    }
}

/// `ceil(x * parts / PERBILL_ONE)`, saturating at `u128::MAX`.
pub fn perbill_mul_ceil(x: u128, parts: u32) -> (r: u128)
    ensures
        r == perbill_mul_ceil_spec(x, parts),
{
    let billion: u128 = PERBILL_ONE as u128;
    let q = x / billion;
    let rem = x % billion;
    proof {
        assert(rem * (parts as u128) + (billion - 1) <= u128::MAX) by (nonlinear_arith)
            requires
                rem < 1_000_000_000,
                parts <= u32::MAX,
                billion == 1_000_000_000,
        ;
    }
    let tail = (rem * (parts as u128) + (billion - 1)) / billion;
    let r = match q.checked_mul(parts as u128) {
        Some(head) => head.saturating_add(tail),
        None => u128::MAX,
    };
    proof {
        let xi = x as int;
        let p = parts as int;
        let b = PERBILL_ONE as int;
        let qi = q as int;
        let ri = rem as int;
        assert(xi == qi * b + ri) by (nonlinear_arith)
            requires
                qi == xi / b,
                ri == xi % b,
                b == 1_000_000_000,
                xi >= 0,
        ;
        assert(xi * p + (b - 1) == (qi * p) * b + (ri * p + (b - 1))) by (nonlinear_arith)
            requires
                xi == qi * b + ri,
        ;
        assert((xi * p + (b - 1)) / b == qi * p + (ri * p + (b - 1)) / b) by (nonlinear_arith)
            requires
                xi * p + (b - 1) == (qi * p) * b + (ri * p + (b - 1)),
                b == 1_000_000_000,
                qi >= 0,
                p >= 0,
                ri >= 0,
        ;
        if qi * p > u128::MAX {
            assert(qi * p + (ri * p + (b - 1)) / b > u128::MAX);
        } else {
            assert(tail as int == (ri * p + (b - 1)) / b);
        }
    }
    r
}

/// Whether `this` improves on `that` by at least `epsilon_parts` parts per
/// billion, applied to the minimal stake of `that`: `this` must beat, in the
/// lexicographic score order, `that` with its minimal stake raised by the
/// threshold.
pub open spec fn is_score_better_spec(this: ElectionScore, that: ElectionScore, epsilon_parts: u32) -> bool {
    lex_gt(
        this,
        ElectionScore {
            minimal_stake: that.minimal_stake.saturating_add(
                perbill_mul_ceil_spec(that.minimal_stake, epsilon_parts),
            ),
            sum_stake: that.sum_stake,
            sum_stake_squared: that.sum_stake_squared,
        },
    )
}

/// Decide whether `this` improves on `that` by at least the given threshold,
/// exactly as [`is_score_better_spec`] states it.
pub fn is_score_better(this: ElectionScore, that: ElectionScore, epsilon_parts: u32) -> (r: bool)
    ensures
        r == is_score_better_spec(this, that, epsilon_parts),
{
    let boosted = that.minimal_stake.saturating_add(perbill_mul_ceil(that.minimal_stake, epsilon_parts));
    if this.minimal_stake > boosted {
        true
    } else if this.minimal_stake < boosted {
        false
    } else if this.sum_stake > that.sum_stake {
        true
    } else if this.sum_stake < that.sum_stake {
        false
    } else {
        this.sum_stake_squared < that.sum_stake_squared
    }
}

} // verus!
