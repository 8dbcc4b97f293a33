//! Paged, index-encoded solutions and their conversion into supports.
//!
//! A solution page lists, per voter of that snapshot page, the targets the
//! voter backs with a rational weight each, all in index space: voter
//! indices address the page-local voter snapshot, target indices the global
//! target snapshot.  Conversion resolves the indices, checks every vote
//! against the voter's declared targets, turns the rational weights into
//! stake (normalizing them so that each voter distributes exactly its
//! stake), and aggregates the resulting edges into a supports page.

use vstd::prelude::*;

use crate::score::ElectionScore;
use crate::snapshot::{Snapshot, SnapshotV, VoterV};
use crate::types::{
    copy_weight_pairs, supports_view, AccountId, ExtendedBalance, FeasibilityError, NposError,
    PageIndex, Support, SupportV, Supports, TargetIndex, VoteWeight, Voter, VoterIndex, RATIO_ONE,
};

verus! {

/// One page of a solution: per voter index, the backed target indices with
/// their rational weights in parts of [`RATIO_ONE`].
pub struct SolutionPage {
    /// The votes of this page.
    pub votes: Vec<(VoterIndex, Vec<(TargetIndex, u16)>)>,
}

/// The mathematical value of a solution page.
pub type PageV = Seq<(VoterIndex, Seq<(TargetIndex, u16)>)>;

impl View for SolutionPage {
    type V = PageV;

    open spec fn view(&self) -> PageV {
        self.votes@.map_values(|e: (VoterIndex, Vec<(TargetIndex, u16)>)| (e.0, e.1@))
    }
}

impl SolutionPage {
    /// A page with no votes at all.
    pub fn new_empty() -> (r: SolutionPage)
        ensures
            r@.len() == 0,
    {
        SolutionPage { votes: Vec::new() }
    }

    /// Clone one page, preserving its value.
    pub fn duplicate(&self) -> (r: SolutionPage)
        ensures
            r@ == self@,
    {
        let mut votes: Vec<(VoterIndex, Vec<(TargetIndex, u16)>)> = Vec::new();
        let mut i: usize = 0;
        while i < self.votes.len()
            invariant
                i <= self.votes@.len(),
                votes@.len() == i,
                forall|j: int| #![trigger votes@[j]]
                    0 <= j < i ==> votes@[j].0 == self.votes@[j].0 && votes@[j].1@
                        == self.votes@[j].1@,
            decreases self.votes.len() - i,
        {
            let ghost v0 = votes@;
            let vidx = self.votes[i].0;
            let mut dist: Vec<(TargetIndex, u16)> = Vec::new();
            let mut j: usize = 0;
            while j < self.votes[i].1.len()
                invariant
                    0 <= i < self.votes@.len(),
                    j <= self.votes@[i as int].1@.len(),
                    dist@ == self.votes@[i as int].1@.subrange(0, j as int),
                decreases self.votes[i as int].1.len() - j,
            {
                dist.push(self.votes[i].1[j]);
                proof {
                    assert(dist@ =~= self.votes@[i as int].1@.subrange(0, j + 1));
                }
                j = j + 1;
            }
            proof {
                assert(dist@ =~= self.votes@[i as int].1@);
            }
            votes.push((vidx, dist));
            proof {
                assert forall|j2: int| #![trigger votes@[j2]] 0 <= j2 < i + 1 implies votes@[j2].0
                    == self.votes@[j2].0 && votes@[j2].1@ == self.votes@[j2].1@ by {
                    if j2 < i {
                        assert(votes@[j2] == v0[j2]);
                        assert(v0[j2].1@ == self.votes@[j2].1@);
                    }
                }
            }
            i = i + 1;
        }
        let r = SolutionPage { votes };
        proof {
            assert(r@ =~= self@);
        }
        r
    }
}

/// A full paged solution as a miner submits it: one page per round page,
/// the claimed score, and the round it was mined for.
pub struct PagedRawSolution {
    /// The solution pages; entry `i` of a vector of length `l` addresses
    /// round page `pages - l + i`, so a shorter vector leaves the least
    /// significant pages empty.
    pub solution_pages: Vec<SolutionPage>,
    /// The score the miner claims the solution achieves.
    pub score: ElectionScore,
    /// The round the solution was mined for.
    pub round: u32,
}

/// Whether one entry's voter index and all its target indices are in range.
pub open spec fn entry_indices_valid(
    e: (VoterIndex, Seq<(TargetIndex, u16)>),
    n_voters: int,
    n_targets: int,
) -> bool {
    &&& (e.0 as int) < n_voters
    &&& forall|j: int| 0 <= j < e.1.len() ==> ((#[trigger] e.1[j]).0 as int) < n_targets
}

/// Whether every index of a page is in range.
pub open spec fn page_indices_valid(sol: PageV, n_voters: int, n_targets: int) -> bool {
    forall|i: int| 0 <= i < sol.len() ==> entry_indices_valid(#[trigger] sol[i], n_voters, n_targets)
}

/// Whether one entry routes stake only to targets its voter declared.
pub open spec fn entry_votes_declared(
    e: (VoterIndex, Seq<(TargetIndex, u16)>),
    voters: Seq<VoterV>,
    targets: Seq<AccountId>,
) -> bool {
    forall|j: int|
        0 <= j < e.1.len() ==> voters[e.0 as int].2.contains(
            targets[(#[trigger] e.1[j]).0 as int],
        )
}

/// Whether every entry of a page routes stake only to declared targets.
pub open spec fn page_votes_declared(sol: PageV, voters: Seq<VoterV>, targets: Seq<AccountId>) -> bool {
    forall|i: int|
        0 <= i < sol.len() ==> entry_votes_declared(#[trigger] sol[i], voters, targets)
}

/// Whether every entry distributes to at least one target.
pub open spec fn page_dists_nonempty(sol: PageV) -> bool {
    forall|i: int| 0 <= i < sol.len() ==> (#[trigger] sol[i]).1.len() > 0
}

/// The stake a rational weight routes before normalization:
/// `stake * parts / RATIO_ONE`, rounded down.
pub open spec fn raw_weight(stake: VoteWeight, parts: u16) -> ExtendedBalance {
    (((stake as int) * (parts as int)) / (RATIO_ONE as int)) as ExtendedBalance
}

/// The pre-normalization weights of one distribution.
pub open spec fn raw_weights(stake: VoteWeight, dist: Seq<(TargetIndex, u16)>) -> Seq<
    ExtendedBalance,
> {
    dist.map_values(|d: (TargetIndex, u16)| raw_weight(stake, d.1))
}

/// The staked weights of one distribution: the raw weights normalized so
/// that the voter distributes exactly its stake.
pub open spec fn entry_staked(stake: VoteWeight, dist: Seq<(TargetIndex, u16)>) -> Seq<
    ExtendedBalance,
> {
    normalize_spec(raw_weights(stake, dist), stake as ExtendedBalance)
}

/// The target identities one distribution addresses, in order.
pub open spec fn dist_targets(targets: Seq<AccountId>, dist: Seq<(TargetIndex, u16)>) -> Seq<
    AccountId,
> {
    dist.map_values(|d: (TargetIndex, u16)| targets[d.0 as int])
}

/// One voter's staked edges folded into a supports page, in distribution
/// order.
pub open spec fn fold_edges(
    sups: Seq<(AccountId, SupportV)>,
    who: AccountId,
    tids: Seq<AccountId>,
    ws: Seq<ExtendedBalance>,
) -> Seq<(AccountId, SupportV)>
    decreases tids.len(),
{
    if tids.len() == 0 {
        sups
    } else {
        add_support_edge(
            fold_edges(sups, who, tids.drop_last(), ws.drop_last()),
            tids.last(),
            who,
            ws.last(),
        )
    }
}

/// One page entry folded into a supports page.
pub open spec fn fold_entry(
    sups: Seq<(AccountId, SupportV)>,
    voters: Seq<VoterV>,
    targets: Seq<AccountId>,
    e: (VoterIndex, Seq<(TargetIndex, u16)>),
) -> Seq<(AccountId, SupportV)> {
    fold_edges(
        sups,
        voters[e.0 as int].0,
        dist_targets(targets, e.1),
        entry_staked(voters[e.0 as int].1, e.1),
    )
}

/// A whole page folded into a supports page, entry by entry.
pub open spec fn fold_page_entries(voters: Seq<VoterV>, targets: Seq<AccountId>, sol: PageV) -> Seq<
    (AccountId, SupportV),
>
    decreases sol.len(),
{
    if sol.len() == 0 {
        Seq::empty()
    } else {
        fold_entry(fold_page_entries(voters, targets, sol.drop_last()), voters, targets, sol.last())
    }
}

/// Converting one solution page into supports, without the per-page
/// heuristics: snapshot availability, index validation, vote validation,
/// staking and aggregation.
pub open spec fn convert_page_spec(snap: SnapshotV, sol: PageV, page: int) -> Result<
    Seq<(AccountId, SupportV)>,
    FeasibilityError,
> {
    if snap.targets is None || !(0 <= page < snap.voter_pages.len()) || snap.voter_pages[page]
        is None {
        Err(FeasibilityError::SnapshotUnavailable)
    } else {
        let targets = snap.targets.unwrap();
        let voters = snap.voter_pages[page].unwrap();
        if !page_indices_valid(sol, voters.len() as int, targets.len() as int) {
            Err(FeasibilityError::NposElection(NposError::SolutionInvalidIndex))
        } else if !page_votes_declared(sol, voters, targets) {
            Err(FeasibilityError::InvalidVote)
        } else if !page_dists_nonempty(sol) {
            Err(FeasibilityError::NposElection(NposError::NormalizationFailed))
        } else {
            Ok(fold_page_entries(voters, targets, sol))
        }
    }
}

/// The full per-page feasibility check: conversion, then the per-page
/// heuristics against the desired winner count and the backer bound.
pub open spec fn feasibility_spec(
    snap: SnapshotV,
    sol: PageV,
    page: int,
    max_backers: u32,
    max_winners: u32,
) -> Result<Seq<(AccountId, SupportV)>, FeasibilityError> {
    match convert_page_spec(snap, sol, page) {
        Err(e) => Err(e),
        Ok(sups) => {
            if snap.desired_targets is None {
                Err(FeasibilityError::SnapshotUnavailable)
            } else if sups.len() > snap.desired_targets.unwrap() || sups.len() > max_winners {
                Err(FeasibilityError::WrongWinnerCount)
            } else if exists|k: int|
                0 <= k < sups.len() && (#[trigger] sups[k]).1.voters.len() > max_backers {
                Err(FeasibilityError::TooManyBackings)
            } else {
                Ok(sups)
            }
        },
    }
}

/// The sum of a weight sequence, as unbounded arithmetic.
pub open spec fn seq_sum(ws: Seq<ExtendedBalance>) -> int
    decreases ws.len(),
{
    if ws.len() == 0 {
        0
    } else {
        seq_sum(ws.drop_last()) + ws.last()
    }
}

/// The first index of a smallest element.
pub open spec fn first_min_index(ws: Seq<ExtendedBalance>) -> int
    decreases ws.len(),
{
    if ws.len() <= 1 {
        0
    } else {
        let r = first_min_index(ws.drop_last());
        if ws.last() < ws[r] {
            ws.len() - 1
        } else {
            r
        }
    }
}

/// The first index of a largest element.
pub open spec fn first_max_index(ws: Seq<ExtendedBalance>) -> int
    decreases ws.len(),
{
    if ws.len() <= 1 {
        0
    } else {
        let r = first_max_index(ws.drop_last());
        if ws.last() > ws[r] {
            ws.len() - 1
        } else {
            r
        }
    }
}

/// [`first_min_index`] and [`first_max_index`] stay in range.
pub proof fn lemma_extreme_index_in_range(ws: Seq<ExtendedBalance>)
    requires
        ws.len() > 0,
    ensures
        0 <= first_min_index(ws) < ws.len(),
        0 <= first_max_index(ws) < ws.len(),
    decreases ws.len(),
{
    if ws.len() > 1 {
        lemma_extreme_index_in_range(ws.drop_last());
    }
}

/// [`add_units`] keeps the length of the sequence.
pub proof fn lemma_add_units_len(ws: Seq<ExtendedBalance>, r: int)
    ensures
        add_units(ws, r).len() == ws.len(),
    decreases r,
{
    if r <= 0 || ws.len() == 0 {
    } else {
        lemma_extreme_index_in_range(ws);
        let idx = first_min_index(ws);
        lemma_add_units_len(ws.update(idx, (ws[idx] + 1) as ExtendedBalance), r - 1);
    }
}

/// [`sub_units`] keeps the length of the sequence.
pub proof fn lemma_sub_units_len(ws: Seq<ExtendedBalance>, diff: int)
    ensures
        sub_units(ws, diff).len() == ws.len(),
    decreases diff,
{
    if diff <= 0 || ws.len() == 0 {
    } else {
        lemma_extreme_index_in_range(ws);
        let idx = first_max_index(ws);
        let m = if (ws[idx] as int) < diff {
            ws[idx] as int
        } else {
            diff
        };
        if m > 0 {
            lemma_sub_units_len(ws.update(idx, (ws[idx] - m) as ExtendedBalance), diff - m);
        }
    }
}

/// [`normalize_spec`] keeps the length of the sequence.
pub proof fn lemma_normalize_len(ws: Seq<ExtendedBalance>, target: ExtendedBalance)
    ensures
        normalize_spec(ws, target).len() == ws.len(),
{
    let s = seq_sum(ws);
    if ws.len() == 0 {
    } else if s < target {
        let diff = target - s;
        let q = diff / (ws.len() as int);
        let r = diff % (ws.len() as int);
        lemma_add_units_len(ws.map_values(|w: ExtendedBalance| (w + q) as ExtendedBalance), r);
    } else if s > target {
        lemma_sub_units_len(ws, s - target);
    }
}

/// `r` single units added, one at a time, each to the first smallest
/// element.
pub open spec fn add_units(ws: Seq<ExtendedBalance>, r: int) -> Seq<ExtendedBalance>
    decreases r,
{
    if r <= 0 || ws.len() == 0 {
        ws
    } else {
        let idx = first_min_index(ws);
        add_units(ws.update(idx, (ws[idx] + 1) as ExtendedBalance), r - 1)
    }
}

/// `diff` units removed, each round taking as much as possible from the
/// first largest element.
pub open spec fn sub_units(ws: Seq<ExtendedBalance>, diff: int) -> Seq<ExtendedBalance>
    decreases diff,
{
    if diff <= 0 || ws.len() == 0 {
        ws
    } else {
        let idx = first_max_index(ws);
        let m = if (ws[idx] as int) < diff {
            ws[idx] as int
        } else {
            diff
        };
        if m <= 0 {
            ws
        } else {
            sub_units(ws.update(idx, (ws[idx] - m) as ExtendedBalance), diff - m)
        }
    }
}

/// A weight sequence adjusted so that it sums to exactly `target`: the bulk
/// of a shortfall is spread evenly, its remainder unit-wise onto the
/// smallest elements; an excess is drained from the largest elements.
pub open spec fn normalize_spec(ws: Seq<ExtendedBalance>, target: ExtendedBalance) -> Seq<
    ExtendedBalance,
> {
    let s = seq_sum(ws);
    if ws.len() == 0 {
        ws
    } else if s < target {
        let diff = target - s;
        let q = diff / (ws.len() as int);
        let r = diff % (ws.len() as int);
        add_units(ws.map_values(|w: ExtendedBalance| (w + q) as ExtendedBalance), r)
    } else if s > target {
        sub_units(ws, s - target)
    } else {
        ws
    }
}

/// The position of `target` in a supports page: the first index whose
/// winner is at least `target`, or the length when every winner is smaller.
/// On a page kept sorted by winner this is where `target` sits or belongs.
pub open spec fn support_pos(sups: Seq<(AccountId, SupportV)>, target: AccountId) -> int
    decreases sups.len(),
{
    if sups.len() == 0 {
        0
    } else if sups[0].0 >= target {
        0
    } else {
        1 + support_pos(sups.drop_first(), target)
    }
}

/// What [`support_pos`] finds: every earlier winner is smaller, and the
/// found position (if in range) holds a winner at least as large.
pub proof fn lemma_support_pos(sups: Seq<(AccountId, SupportV)>, target: AccountId)
    ensures
        0 <= support_pos(sups, target) <= sups.len(),
        forall|j: int| 0 <= j < support_pos(sups, target) ==> (#[trigger] sups[j]).0 < target,
        support_pos(sups, target) < sups.len() ==> sups[support_pos(sups, target)].0 >= target,
    decreases sups.len(),
{
    if sups.len() == 0 {
    } else if sups[0].0 >= target {
    } else {
        lemma_support_pos(sups.drop_first(), target);
        let d = sups.drop_first();
        assert(forall|j: int| 0 <= j < d.len() ==> #[trigger] d[j] == sups[j + 1]);
        assert forall|j: int| 0 <= j < support_pos(sups, target) implies (#[trigger] sups[j]).0
            < target by {
            if j >= 1 {
                assert(d[j - 1].0 < target);
            }
        }
    }
}

/// One staked edge folded into a supports page: the weight joins the
/// winner's existing entry (saturating total, backer appended), or a new
/// entry is inserted at the winner's sorted position.
pub open spec fn add_support_edge(
    sups: Seq<(AccountId, SupportV)>,
    target: AccountId,
    who: AccountId,
    w: ExtendedBalance,
) -> Seq<(AccountId, SupportV)> {
    let k = support_pos(sups, target);
    if k < sups.len() && sups[k].0 == target {
        sups.update(
            k,
            (
                target,
                SupportV {
                    total: sups[k].1.total.saturating_add(w),
                    voters: sups[k].1.voters.push((who, w)),
                },
            ),
        )
    } else {
        sups.insert(k, (target, SupportV { total: w, voters: seq![(who, w)] }))
    }
}

/// Fold one staked edge into a supports page, exactly as
/// [`add_support_edge`] states it.
fn add_support_edge_exec(sups: &mut Supports, target: AccountId, who: AccountId, w: ExtendedBalance)
    ensures
        supports_view(*final(sups)) == add_support_edge(supports_view(*old(sups)), target, who, w),
{
    let ghost s0 = supports_view(*old(sups));
    let mut k: usize = 0;
    while k < sups.len() && sups[k].0 < target
        invariant
            k <= sups@.len(),
            *sups == *old(sups),
            forall|j: int| 0 <= j < k ==> (#[trigger] sups@[j]).0 < target,
        decreases sups.len() - k,
    {
        k = k + 1;
    }
    proof {
        lemma_support_pos(s0, target);
        if k < sups@.len() {
            assert(s0[k as int].0 == sups@[k as int].0);
        }
        assert(support_pos(s0, target) == k as int) by {
            let p = support_pos(s0, target);
            if p < k {
                assert(sups@[p].0 < target);
                assert(s0[p].0 == sups@[p].0);
            }
            if p > k {
                assert(s0[k as int].0 < target);
            }
        }
    }
    if k < sups.len() && sups[k].0 == target {
        let total = sups[k].1.total.saturating_add(w);
        let mut voters = copy_weight_pairs(&sups[k].1.voters);
        voters.push((who, w));
        sups.set(k, (target, Support { total, voters }));
        proof {
            assert(supports_view(*sups) =~= add_support_edge(s0, target, who, w));
        }
    } else {
        let mut voters: Vec<(AccountId, ExtendedBalance)> = Vec::new();
        voters.push((who, w));
        sups.insert(k, (target, Support { total: w, voters }));
        proof {
            assert(supports_view(*sups) =~= add_support_edge(s0, target, who, w));
        }
    }
}

/// The first index of a smallest element, as [`first_min_index`] states it.
fn first_min_index_exec(ws: &Vec<ExtendedBalance>) -> (r: usize)
    requires
        ws@.len() > 0,
    ensures
        r as int == first_min_index(ws@),
        r < ws@.len(),
{
    let mut best: usize = 0;
    let mut i: usize = 1;
    while i < ws.len()
        invariant
            1 <= i <= ws@.len(),
            best < i,
            best as int == first_min_index(ws@.subrange(0, i as int)),
        decreases ws.len() - i,
    {
        proof {
            assert(ws@.subrange(0, i + 1).drop_last() =~= ws@.subrange(0, i as int));
            assert(ws@.subrange(0, i + 1).last() == ws@[i as int]);
            lemma_extreme_index_in_range(ws@.subrange(0, i as int));
        }
        if ws[i] < ws[best] {
            best = i;
        }
        i = i + 1;
    }
    proof {
        assert(ws@.subrange(0, ws@.len() as int) =~= ws@);
    }
    best
}

/// The first index of a largest element, as [`first_max_index`] states it.
fn first_max_index_exec(ws: &Vec<ExtendedBalance>) -> (r: usize)
    requires
        ws@.len() > 0,
    ensures
        r as int == first_max_index(ws@),
        r < ws@.len(),
{
    let mut best: usize = 0;
    let mut i: usize = 1;
    while i < ws.len()
        invariant
            1 <= i <= ws@.len(),
            best < i,
            best as int == first_max_index(ws@.subrange(0, i as int)),
        decreases ws.len() - i,
    {
        proof {
            assert(ws@.subrange(0, i + 1).drop_last() =~= ws@.subrange(0, i as int));
            assert(ws@.subrange(0, i + 1).last() == ws@[i as int]);
            lemma_extreme_index_in_range(ws@.subrange(0, i as int));
        }
        if ws[i] > ws[best] {
            best = i;
        }
        i = i + 1;
    }
    proof {
        assert(ws@.subrange(0, ws@.len() as int) =~= ws@);
    }
    best
}

/// Adjust `ws` in place so that it sums to exactly `target`, exactly as
/// [`normalize_spec`] states it.
pub(crate) fn normalize_exec(ws: &mut Vec<ExtendedBalance>, target: ExtendedBalance)
    requires
        old(ws)@.len() > 0,
        target <= u64::MAX,
        forall|i: int| 0 <= i < old(ws)@.len() ==> (#[trigger] old(ws)@[i]) <= target,
    ensures
        final(ws)@ == normalize_spec(old(ws)@, target),
{
    let ghost w0 = old(ws)@;
    let n = ws.len();
    // Sum the weights; each is at most `target`, so the sum fits.
    let mut sum: u128 = 0;
    let mut i: usize = 0;
    while i < n
        invariant
            i <= n,
            n == ws@.len(),
            ws@ == w0,
            target <= u64::MAX,
            forall|k: int| 0 <= k < ws@.len() ==> (#[trigger] ws@[k]) <= target,
            sum as int == seq_sum(ws@.subrange(0, i as int)),
            sum as int <= (i as int) * (target as int),
        decreases n - i,
    {
        proof {
            assert(ws@.subrange(0, i + 1).drop_last() =~= ws@.subrange(0, i as int));
            assert(ws@.subrange(0, i + 1).last() == ws@[i as int]);
            assert((i as int) * (target as int) + (target as int) == ((i + 1) as int) * (
            target as int)) by (nonlinear_arith);
            assert(((i + 1) as int) * (target as int) < u128::MAX) by (nonlinear_arith)
                requires
                    0 <= (i + 1) as int <= 0xffff_ffff_ffff_ffff,
                    0 <= target <= 0xffff_ffff_ffff_ffff,
            ;
        }
        sum = sum + ws[i];
        i = i + 1;
    }
    proof {
        assert(ws@.subrange(0, n as int) =~= ws@);
    }
    if sum < target {
        let diff = target - sum;
        let q = diff / (n as u128);
        let r = diff % (n as u128);
        proof {
            assert(q <= diff) by (nonlinear_arith)
                requires
                    n > 0,
                    q == diff / (n as u128),
            ;
            assert(r < n as u128) by (nonlinear_arith)
                requires
                    n > 0,
                    r == diff % (n as u128),
            ;
        }
        let ghost mapped = w0.map_values(|w: ExtendedBalance| (w + q) as ExtendedBalance);
        let mut i: usize = 0;
        while i < n
            invariant
                i <= n,
                n == ws@.len(),
                w0.len() == n,
                mapped.len() == n,
                q <= target,
                target <= u64::MAX,
                mapped == w0.map_values(|w: ExtendedBalance| (w + q) as ExtendedBalance),
                forall|k: int| i <= k < ws@.len() ==> (#[trigger] ws@[k]) == w0[k] && w0[k] <= target,
                forall|k: int| 0 <= k < i ==> (#[trigger] ws@[k]) == mapped[k],
            decreases n - i,
        {
            ws.set(i, ws[i] + q);
            i = i + 1;
        }
        proof {
            assert(ws@ =~= mapped);
        }
        let mut c: u128 = 0;
        while c < r
            invariant
                n == ws@.len(),
                n > 0,
                c <= r,
                r < n as u128,
                q <= target,
                target <= u64::MAX,
                add_units(ws@, (r - c) as int) == add_units(mapped, r as int),
                forall|k: int|
                    0 <= k < ws@.len() ==> (#[trigger] ws@[k]) as int <= target + q + c,
            decreases r - c,
        {
            let idx = first_min_index_exec(ws);
            let ghost before = ws@;
            ws.set(idx, ws[idx] + 1);
            proof {
                assert(add_units(before, (r - c) as int) == add_units(ws@, (r - c - 1) as int));
            }
            c = c + 1;
        }
        proof {
            assert(add_units(ws@, 0) == ws@);
            let s = seq_sum(w0);
            let qs = (target - s) / (w0.len() as int);
            let rs = (target - s) % (w0.len() as int);
            assert(q as int == qs);
            assert(r as int == rs);
            assert(mapped =~= w0.map_values(|w: ExtendedBalance| (w + qs) as ExtendedBalance));
            assert(normalize_spec(w0, target) == add_units(
                w0.map_values(|w: ExtendedBalance| (w + qs) as ExtendedBalance),
                rs,
            ));
        }
    } else if sum > target {
        let mut diff = sum - target;
        let ghost diff0 = diff;
        while diff > 0
            invariant
                n == ws@.len(),
                n > 0,
                w0 == old(ws)@,
                sub_units(ws@, diff as int) == sub_units(w0, diff0 as int),
                sub_units(w0, diff0 as int) == normalize_spec(w0, target),
            decreases diff,
        {
            let idx = first_max_index_exec(ws);
            let m = if ws[idx] < diff {
                ws[idx]
            } else {
                diff
            };
            if m == 0 {
                proof {
                    assert(sub_units(ws@, diff as int) == ws@);
                }
                return ;
            }
            let ghost before = ws@;
            ws.set(idx, ws[idx] - m);
            proof {
                assert(sub_units(before, diff as int) == sub_units(ws@, (diff - m) as int));
            }
            diff = diff - m;
        }
        proof {
            assert(sub_units(ws@, 0) == ws@);
        }
    }
}

/// Whether `x` occurs in `v`, exactly as `Seq::contains` states it.
fn contains_account(v: &Vec<AccountId>, x: AccountId) -> (r: bool)
    ensures
        r == v@.contains(x),
{
    let mut i: usize = 0;
    while i < v.len()
        invariant
            i <= v@.len(),
            forall|j: int| 0 <= j < i ==> v@[j] != x,
        decreases v.len() - i,
    {
        if v[i] == x {
            return true;
        }
        i = i + 1;
    }
    false
}

/// A raw weight never exceeds the voter's stake.
proof fn lemma_raw_weight_le(stake: VoteWeight, parts: u16)
    ensures
        raw_weight(stake, parts) <= stake,
{
    assert(((stake as int) * (parts as int)) / (RATIO_ONE as int) <= stake as int)
        by (nonlinear_arith)
        requires
            0 <= stake as int,
            0 <= parts as int <= RATIO_ONE as int,
            RATIO_ONE == 65535,
    ;
}

/// Convert one solution page into its supports, exactly as
/// [`convert_page_spec`] states it: resolve all indices, check every vote
/// against the voter's declared targets, normalize the weights onto each
/// voter's stake, and aggregate the staked edges per winner.
pub fn page_to_supports(snapshot: &Snapshot, sol: &SolutionPage, page: PageIndex) -> (r: Result<
    Supports,
    FeasibilityError,
>)
    ensures
        ({
            let spec_r = convert_page_spec(snapshot@, sol@, page as int);
            match r {
                Ok(s) => spec_r == Ok::<_, FeasibilityError>(supports_view(s)),
                Err(e) => spec_r == Err::<Seq<(AccountId, SupportV)>, _>(e),
            }
        }),
{
    let targets: &Vec<AccountId> = match &snapshot.targets {
        Some(t) => t,
        None => {
            return Err(FeasibilityError::SnapshotUnavailable);
        },
    };
    if page as usize >= snapshot.voter_pages.len() {
        return Err(FeasibilityError::SnapshotUnavailable);
    }
    let voters: &Vec<Voter> = match &snapshot.voter_pages[page as usize] {
        Some(v) => v,
        None => {
            proof {
                assert(snapshot@.voter_pages[page as int] is None);
            }
            return Err(FeasibilityError::SnapshotUnavailable);
        },
    };
    let ghost targets_v = snapshot@.targets.unwrap();
    let ghost voters_v = snapshot@.voter_pages[page as int].unwrap();
    proof {
        assert(snapshot@.voter_pages[page as int] == Some(crate::snapshot::voters_view(voters@)));
        assert(targets_v == targets@);
    }
    let n = sol.votes.len();
    // Validate all indices.
    let mut i: usize = 0;
    while i < n
        invariant
            snapshot@.targets == Some(targets_v),
            0 <= (page as int) && (page as int) < snapshot@.voter_pages.len(),
            snapshot@.voter_pages[page as int] == Some(voters_v),
            voters_v == crate::snapshot::voters_view(voters@),
            targets_v == targets@,
            n == sol@.len(),
            i <= n,
            voters_v.len() == voters@.len(),
            forall|ii: int|
                0 <= ii < i ==> entry_indices_valid(
                    #[trigger] sol@[ii],
                    voters_v.len() as int,
                    targets_v.len() as int,
                ),
        decreases n - i,
    {
        if sol.votes[i].0 as usize >= voters.len() {
            proof {
                assert(!entry_indices_valid(
                    sol@[i as int],
                    voters_v.len() as int,
                    targets_v.len() as int,
                ));
            }
            return Err(FeasibilityError::NposElection(NposError::SolutionInvalidIndex));
        }
        let dist = &sol.votes[i].1;
        let mut j: usize = 0;
        while j < dist.len()
            invariant
                snapshot@.targets == Some(targets_v),
                0 <= (page as int) && (page as int) < snapshot@.voter_pages.len(),
                snapshot@.voter_pages[page as int] == Some(voters_v),
                voters_v == crate::snapshot::voters_view(voters@),
                targets_v == targets@,
                0 <= i < sol@.len(),
                n == sol@.len(),
                dist@ == sol@[i as int].1,
                j <= dist@.len(),
                voters_v.len() == voters@.len(),
                forall|jj: int| 0 <= jj < j ==> ((#[trigger] dist@[jj]).0 as int) < targets_v.len(),
            decreases dist.len() - j,
        {
            if dist[j].0 as usize >= targets.len() {
                proof {
                    assert(!entry_indices_valid(
                        sol@[i as int],
                        voters_v.len() as int,
                        targets_v.len() as int,
                    ));
                }
                return Err(FeasibilityError::NposElection(NposError::SolutionInvalidIndex));
            }
            j = j + 1;
        }
        i = i + 1;
    }
    proof {
        assert(page_indices_valid(sol@, voters_v.len() as int, targets_v.len() as int));
    }
    // Validate every vote against the voter's declared targets.
    let mut i: usize = 0;
    while i < n
        invariant
            snapshot@.targets == Some(targets_v),
            0 <= (page as int) && (page as int) < snapshot@.voter_pages.len(),
            snapshot@.voter_pages[page as int] == Some(voters_v),
            voters_v == crate::snapshot::voters_view(voters@),
            targets_v == targets@,
            n == sol@.len(),
            i <= n,
            page_indices_valid(sol@, voters_v.len() as int, targets_v.len() as int),
            forall|ii: int|
                0 <= ii < i ==> entry_votes_declared(#[trigger] sol@[ii], voters_v, targets_v),
        decreases n - i,
    {
        let vidx = sol.votes[i].0 as usize;
        let dist = &sol.votes[i].1;
        proof {
            assert(entry_indices_valid(
                sol@[i as int],
                voters_v.len() as int,
                targets_v.len() as int,
            ));
            assert(vidx == sol@[i as int].0 as int);
        }
        let mut j: usize = 0;
        while j < dist.len()
            invariant
                snapshot@.targets == Some(targets_v),
                0 <= (page as int) && (page as int) < snapshot@.voter_pages.len(),
                snapshot@.voter_pages[page as int] == Some(voters_v),
                voters_v == crate::snapshot::voters_view(voters@),
                targets_v == targets@,
                0 <= i < sol@.len(),
                n == sol@.len(),
                dist@ == sol@[i as int].1,
                vidx == sol@[i as int].0 as int,
                vidx < voters@.len(),
                page_indices_valid(sol@, voters_v.len() as int, targets_v.len() as int),
                forall|ii: int|
                    0 <= ii < i ==> entry_votes_declared(#[trigger] sol@[ii], voters_v, targets_v),
                j <= dist@.len(),
                forall|jj: int|
                    0 <= jj < j ==> voters_v[vidx as int].2.contains(
                        targets_v[(#[trigger] dist@[jj]).0 as int],
                    ),
            decreases dist.len() - j,
        {
            proof {
                assert(entry_indices_valid(
                    sol@[i as int],
                    voters_v.len() as int,
                    targets_v.len() as int,
                ));
                assert((dist@[j as int].0 as int) < targets_v.len());
                assert(voters_v[vidx as int].2 == voters@[vidx as int].2@);
            }
            let tid = targets[dist[j].0 as usize];
            if !contains_account(&voters[vidx].2, tid) {
                proof {
                    assert(sol@[i as int].1[j as int] == dist@[j as int]);
                    assert(!voters_v[sol@[i as int].0 as int].2.contains(
                        targets_v[sol@[i as int].1[j as int].0 as int],
                    ));
                    assert(!entry_votes_declared(sol@[i as int], voters_v, targets_v));
                    assert(!page_votes_declared(sol@, voters_v, targets_v));
                }
                return Err(FeasibilityError::InvalidVote);
            }
            j = j + 1;
        }
        proof {
            assert(entry_votes_declared(sol@[i as int], voters_v, targets_v));
        }
        i = i + 1;
    }
    proof {
        assert(page_votes_declared(sol@, voters_v, targets_v));
    }
    // No voter may appear without a distribution.
    let mut i: usize = 0;
    while i < n
        invariant
            snapshot@.targets == Some(targets_v),
            0 <= (page as int) && (page as int) < snapshot@.voter_pages.len(),
            snapshot@.voter_pages[page as int] == Some(voters_v),
            voters_v == crate::snapshot::voters_view(voters@),
            targets_v == targets@,
            n == sol@.len(),
            i <= n,
            voters_v.len() == voters@.len(),
            page_indices_valid(sol@, voters_v.len() as int, targets_v.len() as int),
            page_votes_declared(sol@, voters_v, targets_v),
            forall|ii: int| 0 <= ii < i ==> (#[trigger] sol@[ii]).1.len() > 0,
        decreases n - i,
    {
        if sol.votes[i].1.len() == 0 {
            proof {
                assert(sol@[i as int].1.len() == 0);
            }
            return Err(FeasibilityError::NposElection(NposError::NormalizationFailed));
        }
        i = i + 1;
    }
    proof {
        assert(page_dists_nonempty(sol@));
    }
    // Stake the weights and aggregate the edges into supports.
    let mut sups: Supports = Vec::new();
    let mut i: usize = 0;
    while i < n
        invariant
            n == sol@.len(),
            i <= n,
            targets_v == targets@,
            voters_v == crate::snapshot::voters_view(voters@),
            page_indices_valid(sol@, voters_v.len() as int, targets_v.len() as int),
            page_dists_nonempty(sol@),
            supports_view(sups) == fold_page_entries(voters_v, targets_v, sol@.subrange(0, i as int)),
        decreases n - i,
    {
        proof {
            assert(sol@.subrange(0, i + 1).drop_last() =~= sol@.subrange(0, i as int));
            assert(sol@.subrange(0, i + 1).last() == sol@[i as int]);
            assert(entry_indices_valid(
                sol@[i as int],
                voters_v.len() as int,
                targets_v.len() as int,
            ));
        }
        let vidx = sol.votes[i].0 as usize;
        let who = voters[vidx].0;
        let stake = voters[vidx].1;
        let dist = &sol.votes[i].1;
        proof {
            assert(voters_v[vidx as int] == (voters@[vidx as int].0, voters@[vidx as int].1, voters@[vidx as int].2@));
        }
        // Raw weights.
        let mut ws: Vec<ExtendedBalance> = Vec::new();
        let mut j: usize = 0;
        while j < dist.len()
            invariant
                0 <= i < sol@.len(),
                dist@ == sol@[i as int].1,
                j <= dist@.len(),
                ws@.len() == j,
                forall|jj: int|
                    0 <= jj < j ==> (#[trigger] ws@[jj]) == raw_weight(stake, dist@[jj].1),
            decreases dist.len() - j,
        {
            let parts = dist[j].1;
            proof {
                assert((stake as int) * (parts as int) <= (stake as int) * 65535)
                    by (nonlinear_arith)
                    requires
                        0 <= stake as int,
                        0 <= parts as int <= 65535,
                ;
                assert((stake as int) * 65535 <= u128::MAX) by (nonlinear_arith)
                    requires
                        0 <= stake as int <= 0xffff_ffff_ffff_ffff,
                ;
            }
            let w = (stake as u128 * parts as u128) / (RATIO_ONE as u128);
            ws.push(w);
            j = j + 1;
        }
        proof {
            assert(ws@ =~= raw_weights(stake, dist@));
            assert forall|k: int| 0 <= k < ws@.len() implies (#[trigger] ws@[k])
                <= stake as ExtendedBalance by {
                lemma_raw_weight_le(stake, dist@[k].1);
            }
            assert(dist@.len() > 0);
        }
        // Normalize onto the voter's stake.
        normalize_exec(&mut ws, stake as ExtendedBalance);
        proof {
            lemma_normalize_len(raw_weights(stake, dist@), stake as ExtendedBalance);
            assert(ws@ == entry_staked(stake, dist@));
            assert(ws@.len() == dist@.len());
        }
        // Fold the staked edges into the supports.
        let ghost sups0 = supports_view(sups);
        let ghost tids = dist_targets(targets_v, dist@);
        let mut j: usize = 0;
        while j < dist.len()
            invariant
                0 <= i < sol@.len(),
                dist@ == sol@[i as int].1,
                targets_v == targets@,
                page_indices_valid(sol@, voters_v.len() as int, targets_v.len() as int),
                tids == dist_targets(targets_v, dist@),
                ws@.len() == dist@.len(),
                tids.len() == dist@.len(),
                j <= dist@.len(),
                supports_view(sups) == fold_edges(
                    sups0,
                    who,
                    tids.subrange(0, j as int),
                    ws@.subrange(0, j as int),
                ),
            decreases dist.len() - j,
        {
            proof {
                assert(entry_indices_valid(
                    sol@[i as int],
                    voters_v.len() as int,
                    targets_v.len() as int,
                ));
                assert((dist@[j as int].0 as int) < targets_v.len());
                assert(tids.subrange(0, j + 1).drop_last() =~= tids.subrange(0, j as int));
                assert(ws@.subrange(0, j + 1).drop_last() =~= ws@.subrange(0, j as int));
                assert(tids.subrange(0, j + 1).last() == tids[j as int]);
                assert(ws@.subrange(0, j + 1).last() == ws@[j as int]);
                assert(tids[j as int] == targets_v[dist@[j as int].0 as int]);
            }
            let tid = targets[dist[j].0 as usize];
            let w = ws[j];
            add_support_edge_exec(&mut sups, tid, who, w);
            j = j + 1;
        }
        proof {
            assert(tids.subrange(0, tids.len() as int) =~= tids);
            assert(ws@.subrange(0, ws@.len() as int) =~= ws@);
            assert(supports_view(sups) == fold_entry(sups0, voters_v, targets_v, sol@[i as int]));
        }
        i = i + 1;
    }
    proof {
        assert(sol@.subrange(0, n as int) =~= sol@);
    }
    Ok(sups)
}

/// The full per-page feasibility check, exactly as [`feasibility_spec`]
/// states it: conversion into supports, then the per-page heuristics.
pub fn feasibility_check(
    snapshot: &Snapshot,
    sol: &SolutionPage,
    page: PageIndex,
    max_backers: u32,
    max_winners: u32,
) -> (r: Result<Supports, FeasibilityError>)
    ensures
        ({
            let spec_r = feasibility_spec(snapshot@, sol@, page as int, max_backers, max_winners);
            match r {
                Ok(s) => spec_r == Ok::<_, FeasibilityError>(supports_view(s)),
                Err(e) => spec_r == Err::<Seq<(AccountId, SupportV)>, _>(e),
            }
        }),
{
    let sups = match page_to_supports(snapshot, sol, page) {
        Ok(s) => s,
        Err(e) => {
            return Err(e);
        },
    };
    let desired = match snapshot.desired_targets {
        Some(d) => d,
        None => {
            return Err(FeasibilityError::SnapshotUnavailable);
        },
    };
    if sups.len() > desired as usize || sups.len() > max_winners as usize {
        return Err(FeasibilityError::WrongWinnerCount);
    }
    let mut k: usize = 0;
    while k < sups.len()
        invariant
            k <= sups@.len(),
            convert_page_spec(snapshot@, sol@, page as int) == Ok::<_, FeasibilityError>(
                supports_view(sups),
            ),
            snapshot@.desired_targets == Some(desired),
            supports_view(sups).len() <= desired,
            supports_view(sups).len() <= max_winners,
            forall|i: int|
                0 <= i < k ==> (#[trigger] supports_view(sups)[i]).1.voters.len() <= max_backers,
        decreases sups.len() - k,
    {
        if sups[k].1.voters.len() > max_backers as usize {
            proof {
                assert(supports_view(sups)[k as int].1.voters.len() > max_backers);
            }
            return Err(FeasibilityError::TooManyBackings);
        }
        proof {
            assert(supports_view(sups)[k as int].1.voters.len() <= max_backers);
        }
        k = k + 1;
    }
    Ok(sups)
}

} // verus!
