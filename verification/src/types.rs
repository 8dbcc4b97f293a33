//! Plain data types shared by the whole pipeline.

use vstd::prelude::*;

verus! {

/// Identifies one page of the paged snapshot and of a paged solution.
///
/// Page `pages - 1` is the most significant page and is verified first; page
/// `0` is the least significant page and is verified last.
pub type PageIndex = u32;

/// An account taking part in the election, as a voter or as a target.
pub type AccountId = u64;

/// The stake a voter carries in the snapshot.
pub type VoteWeight = u64;

/// The wide balance type in which supports and scores are computed.
pub type ExtendedBalance = u128;

/// Index of a voter within one page of the voter snapshot.
pub type VoterIndex = u32;

/// Index of a target within the global target snapshot.
pub type TargetIndex = u16;

/// A voter as the snapshot stores it: identity, stake, and the targets the
/// voter declared.
pub type Voter = (AccountId, VoteWeight, Vec<AccountId>);

/// The denominator of the per-edge rational weights of a solution: a weight
/// of `RATIO_ONE` parts routes the voter's whole stake to one target.
pub const RATIO_ONE: u16 = 65535;

/// All the stake one winner receives on one page: the total, and each
/// contributing voter with the weight it routed here.
pub struct Support {
    /// Sum of the weights of `voters`, saturating at `u128::MAX`.
    pub total: ExtendedBalance,
    /// The contributing voters, in the order their edges were aggregated.
    pub voters: Vec<(AccountId, ExtendedBalance)>,
}

/// The mathematical value of a [`Support`].
pub ghost struct SupportV {
    pub total: ExtendedBalance,
    pub voters: Seq<(AccountId, ExtendedBalance)>,
}

impl View for Support {
    type V = SupportV;

    open spec fn view(&self) -> SupportV {
        SupportV { total: self.total, voters: self.voters@ }
    }
}

/// Clone a vector of copyable pairs, preserving its value.
pub fn copy_weight_pairs(v: &Vec<(AccountId, ExtendedBalance)>) -> (r: Vec<(
    AccountId,
    ExtendedBalance,
)>)
    ensures
        r@ == v@,
{
    let mut r: Vec<(AccountId, ExtendedBalance)> = Vec::new();
    let mut i: usize = 0;
    while i < v.len()
        invariant
            i <= v.len(),
            r@ == v@.subrange(0, i as int),
        decreases v.len() - i,
    {
        r.push(v[i]);
        proof {
            assert(r@ =~= v@.subrange(0, i + 1));
        }
        i = i + 1;
    }
    proof {
        assert(r@ =~= v@);
    }
    r
}

/// Clone a vector of account identities, preserving its value.
pub fn copy_accounts(v: &Vec<AccountId>) -> (r: Vec<AccountId>)
    ensures
        r@ == v@,
{
    let mut r: Vec<AccountId> = Vec::new();
    let mut i: usize = 0;
    while i < v.len()
        invariant
            i <= v.len(),
            r@ == v@.subrange(0, i as int),
        decreases v.len() - i,
    {
        r.push(v[i]);
        proof {
            assert(r@ =~= v@.subrange(0, i + 1));
        }
        i = i + 1;
    }
    proof {
        assert(r@ =~= v@);
    }
    r
}

impl Support {
    /// Clone one support, preserving its value.
    pub fn duplicate(&self) -> (r: Support)
        ensures
            r@ == self@,
    {
        Support { total: self.total, voters: copy_weight_pairs(&self.voters) }
    }
}

/// One page of supports: an association list from winner to [`Support`].
/// The feasibility check produces such pages sorted by winner identity,
/// with one entry per winner.
pub type Supports = Vec<(AccountId, Support)>;

/// The mathematical value of a [`Supports`] page.
pub open spec fn supports_view(s: Supports) -> Seq<(AccountId, SupportV)> {
    s@.map_values(|p: (AccountId, Support)| (p.0, p.1@))
}

/// Clone one supports page, preserving its value.
pub fn duplicate_supports(s: &Supports) -> (r: Supports)
    ensures
        supports_view(r) == supports_view(*s),
{
    let mut r: Supports = Vec::new();
    let mut i: usize = 0;
    while i < s.len()
        invariant
            i <= s.len(),
            r@.len() == i,
            forall|j: int| #![trigger r@[j]]
                0 <= j < i ==> r@[j].0 == s@[j].0 && r@[j].1@ == s@[j].1@,
        decreases s.len() - i,
    {
        let ghost r0 = r@;
        let (who, sup) = &s[i];
        let d = sup.duplicate();
        r.push((*who, d));
        proof {
            assert(r@ == r0.push((*who, d)));
            assert(r@[i as int].0 == s@[i as int].0);
            assert(r@[i as int].1 == d);
            assert(d@ == s@[i as int].1@);
            assert forall|j: int| #![trigger r@[j]] 0 <= j < i + 1 implies r@[j].0 == s@[j].0
                && r@[j].1@ == s@[j].1@ by {
                if j < i {
                    assert(r@[j] == r0[j]);
                    assert(r0[j].1@ == s@[j].1@);
                } else {
                    assert(r@[j] == (*who, d));
                }
            }
        }
        i = i + 1;
    }
    proof {
        assert(supports_view(r) =~= supports_view(*s));
    }
    r
}

/// The compressed form of a [`Support`]: all the final score needs.
#[derive(Clone, Copy, PartialEq, Eq, Structural, Debug)]
pub struct PartialBackings {
    /// The total backing of this winner.
    pub total: ExtendedBalance,
    /// The number of backers behind that total.
    pub backers: u32,
}

/// What the verifier is doing right now.
#[derive(Clone, Copy, PartialEq, Eq, Structural, Debug)]
pub enum Status {
    /// Page `p` of a solution will be consumed on the next tick.
    Ongoing(PageIndex),
    /// No verification is in progress.
    Nothing,
}

/// Errors of the underlying solution arithmetic.
#[derive(Clone, Copy, PartialEq, Eq, Structural, Debug)]
pub enum NposError {
    /// A voter or target index of a solution page is out of range.
    SolutionInvalidIndex,
    /// A voter's weights could not be normalized onto its stake.
    NormalizationFailed,
}

/// Everything that can make a solution infeasible.
#[derive(Clone, Copy, PartialEq, Eq, Structural, Debug)]
pub enum FeasibilityError {
    /// A page presented more winners than desired, or the aggregate winner
    /// count differed from the desired count.
    WrongWinnerCount,
    /// A needed part of the snapshot is not available.
    SnapshotUnavailable,
    /// A voter routed stake to a target it never declared.
    InvalidVote,
    /// A voter of the solution does not match the snapshot.
    InvalidVoter,
    /// A winner of the solution is invalid.
    InvalidWinner,
    /// The recomputed score differs from the claimed score.
    InvalidScore,
    /// The solution refers to the wrong round.
    InvalidRound,
    /// The claimed score fails the admission gate.
    ScoreTooLow,
    /// A winner has more backers than allowed, on one page or in aggregate.
    TooManyBackings,
    /// Finalization ran with fewer backing pages than the round has pages.
    Incomplete,
    /// An error of the underlying solution arithmetic.
    NposElection(NposError),
}

/// The terminal outcome the verifier reports to the solution provider.
#[derive(Clone, Copy, PartialEq, Eq, Structural, Debug)]
pub enum VerificationResult {
    /// The solution was fully verified and is now queued.
    Valid,
    /// The solution was rejected.
    Invalid,
}

/// Errors of the authority-gated operations.
#[derive(Clone, Copy, PartialEq, Eq, Structural, Debug)]
pub enum Error {
    /// The call is not allowed in the current phase.
    CallNotAllowed,
    /// The number of provided pages does not equal the round's page count.
    WrongPageCount,
    /// A provided support page exceeds the configured bounds.
    WrongSupportBounds,
}

/// The phase the surrounding election process is in, as the phase controller
/// reports it.
#[derive(Clone, Copy, PartialEq, Eq, Structural, Debug)]
pub enum Phase {
    /// No election activity.
    Off,
    /// The snapshot is being built; `k` pages remain.
    Snapshot(PageIndex),
    /// Signed submissions are open.
    Signed,
    /// Unsigned submissions are open.
    Unsigned,
    /// The election failed; only an emergency solution can be installed.
    Emergency,
}

} // verus!
