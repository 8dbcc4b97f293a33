//! The per-tick verifier state machine.
//!
//! The verifier is idle (`Nothing`) or verifying page `p` (`Ongoing(p)`).
//! Each tick consumes exactly one page from the solution data provider,
//! feasibility-checks it, and either writes it into the invalid buffer and
//! advances, or aborts the whole challenger.  After the last page the
//! aggregate score is recomputed from the backings and held against the
//! claimed score; only then is the challenger committed by flipping the
//! buffer pointer.

use vstd::prelude::*;

use crate::queued::{
    clear_invalid_v, final_score_v, finalize_correct_v, force_set_single_page_valid_v,
    force_set_valid_v, q_pages, q_wf, set_invalid_page_v, QueuedSolution, QueuedV,
};
use crate::score::{is_score_better, is_score_better_spec, ElectionScore};
use crate::snapshot::{Snapshot, SnapshotV};
use crate::solution::{feasibility_check, feasibility_spec, PageV, SolutionPage};
use crate::types::{
    supports_view, AccountId, Error, FeasibilityError, PageIndex, Phase, Status, SupportV,
    Supports, VerificationResult,
};

verus! {

/// The configuration of one verifier instance.
#[derive(Clone, Copy, PartialEq, Eq, Structural, Debug)]
pub struct Config {
    /// How many pages snapshot and solutions have.  At least one.
    pub pages: PageIndex,
    /// The most backers any winner may have, per page and in aggregate.
    pub max_backers_per_winner: u32,
    /// The most winners one supports page may carry.
    pub max_winners_per_page: u32,
    /// The improvement a challenger's claimed score must show over the
    /// queued score, in parts per billion of the queued minimal stake.
    pub solution_improvement_threshold: u32,
}

/// What the verifier announces to the outside.
#[derive(Clone, Copy, PartialEq, Eq, Debug)]
pub enum Event {
    /// The given page was verified, with that many winners found in it.
    Verified(PageIndex, u32),
    /// Verification failed at the given page.  Page `0` may mean that the
    /// final checks failed rather than the page itself.
    VerificationFailed(PageIndex, FeasibilityError),
    /// A solution with the first score replaced the previously queued
    /// solution with the second.
    Queued(ElectionScore, Option<ElectionScore>),
}

/// The mathematical state of the solution data provider.
pub ghost struct ProviderV {
    /// The loaded solution pages, index `p` holding round page `p`.
    pub pages: Seq<PageV>,
    /// The claimed score of the loaded solution.
    pub score: ElectionScore,
    /// Every terminal verdict reported so far.
    pub results: Seq<VerificationResult>,
}

/// The in-memory solution data provider: the paged solution under
/// verification and the verdicts reported back.
pub struct SolutionDataProvider {
    /// The loaded solution pages, index `p` holding round page `p`.
    pub pages: Vec<SolutionPage>,
    /// The claimed score of the loaded solution.
    pub score: ElectionScore,
    /// Every terminal verdict reported so far.
    pub results: Vec<VerificationResult>,
}

impl View for SolutionDataProvider {
    type V = ProviderV;

    open spec fn view(&self) -> ProviderV {
        ProviderV {
            pages: self.pages@.map_values(|sp: SolutionPage| sp@),
            score: self.score,
            results: self.results@,
        }
    }
}

/// The page a provider serves: the loaded page, or an empty page where
/// nothing was loaded.
pub open spec fn provider_page(prov: ProviderV, page: int) -> PageV {
    if 0 <= page < prov.pages.len() {
        prov.pages[page]
    } else {
        Seq::empty()
    }
}

impl SolutionDataProvider {
    /// A provider holding the given solution pages and claimed score.
    pub fn new(pages: Vec<SolutionPage>, score: ElectionScore) -> (r: SolutionDataProvider)
        ensures
            r@.pages == pages@.map_values(|sp: SolutionPage| sp@),
            r@.score == score,
            r@.results == Seq::<VerificationResult>::empty(),
    {
        SolutionDataProvider { pages, score, results: Vec::new() }
    }

    /// Serve one page; an unloaded page is served empty.
    pub fn get_page(&self, page: PageIndex) -> (r: SolutionPage)
        ensures
            r@ == provider_page(self@, page as int),
    {
        if (page as usize) < self.pages.len() {
            self.pages[page as usize].duplicate()
        } else {
            let r = SolutionPage::new_empty();
            proof {
                assert(r@ =~= provider_page(self@, page as int));
            }
            r
        }
    }

    /// The claimed score of the loaded solution.
    pub fn get_score(&self) -> (r: ElectionScore)
        ensures
            r == self@.score,
    {
        self.score
    }

    /// Record one terminal verdict.
    pub fn report_result(&mut self, result: VerificationResult)
        ensures
            final(self)@ == (ProviderV { results: old(self)@.results.push(result), ..old(self)@ }),
    {
        self.results.push(result);
    }
}

/// The mathematical state of the verifier.
pub ghost struct PalletV {
    /// The configuration.
    pub config: Config,
    /// The double-buffered solution store.
    pub queued: QueuedV,
    /// Idle, or the page consumed on the next tick.
    pub status: Status,
    /// The floor every untrusted claimed score must clear, if set.
    pub minimum_untrusted_score: Option<ElectionScore>,
    /// Every event announced so far, oldest first.
    pub events: Seq<Event>,
}

/// Structural soundness of a verifier state.
pub open spec fn p_wf(p: PalletV) -> bool {
    &&& p.config.pages >= 1
    &&& q_wf(p.queued)
    &&& q_pages(p.queued) == p.config.pages as int
    &&& match p.status {
        Status::Ongoing(page) => (page as int) < p.config.pages as int,
        Status::Nothing => true,
    }
}

/// Whether a claimed score clears the admission gate: it must improve on
/// the queued score by at least the configured threshold, and clear the
/// minimum untrusted score if one is set.
pub open spec fn score_quality_ok(p: PalletV, score: ElectionScore) -> bool {
    &&& match p.queued.score {
        None => true,
        Some(best) => is_score_better_spec(score, best, p.config.solution_improvement_threshold),
    }
    &&& match p.minimum_untrusted_score {
        None => true,
        Some(floor) => is_score_better_spec(score, floor, 0),
    }
}

/// Finalization: recompute the score from the backings, hold it against the
/// claim and the winner count against the desired count, and on success
/// commit the challenger.  On any failure the invalid buffer is dropped.
pub open spec fn finalize_verification_v(p: PalletV, claimed: ElectionScore, desired: u32) -> (
    PalletV,
    Result<(), FeasibilityError>,
) {
    match final_score_v(p.queued, p.config.max_backers_per_winner) {
        Err(e) => (PalletV { queued: clear_invalid_v(p.queued), ..p }, Err(e)),
        Ok((final_score, winner_count)) => {
            if final_score == claimed && winner_count == desired {
                (
                    PalletV {
                        queued: finalize_correct_v(p.queued, final_score),
                        events: p.events.push(Event::Queued(final_score, p.queued.score)),
                        ..p
                    },
                    Ok(()),
                )
            } else if winner_count != desired {
                (
                    PalletV { queued: clear_invalid_v(p.queued), ..p },
                    Err(FeasibilityError::WrongWinnerCount),
                )
            } else {
                (
                    PalletV { queued: clear_invalid_v(p.queued), ..p },
                    Err(FeasibilityError::InvalidScore),
                )
            }
        },
    }
}

/// One tick of the state machine: what one `on_initialize` invocation does
/// to the verifier and to the provider, given the snapshot of the round.
pub open spec fn tick_v(p: PalletV, snap: SnapshotV, prov: ProviderV) -> (PalletV, ProviderV) {
    match p.status {
        Status::Nothing => (p, prov),
        Status::Ongoing(page) => {
            let sol = provider_page(prov, page as int);
            match feasibility_spec(
                snap,
                sol,
                page as int,
                p.config.max_backers_per_winner,
                p.config.max_winners_per_page,
            ) {
                Err(e) => (
                    PalletV {
                        status: Status::Nothing,
                        queued: clear_invalid_v(p.queued),
                        events: p.events.push(Event::VerificationFailed(page, e)),
                        ..p
                    },
                    ProviderV {
                        results: prov.results.push(VerificationResult::Invalid),
                        ..prov
                    },
                ),
                Ok(sups) => {
                    let p1 = PalletV {
                        queued: set_invalid_page_v(p.queued, page as int, sups),
                        events: p.events.push(Event::Verified(page, sups.len() as u32)),
                        ..p
                    };
                    if page > 0 {
                        (PalletV { status: Status::Ongoing((page - 1) as PageIndex), ..p1 }, prov)
                    } else {
                        let claimed = prov.score;
                        let desired = snap.desired_targets.unwrap();
                        let fin = finalize_verification_v(p1, claimed, desired);
                        match fin.1 {
                            Ok(_) => (
                                PalletV { status: Status::Nothing, ..fin.0 },
                                ProviderV {
                                    results: prov.results.push(VerificationResult::Valid),
                                    ..prov
                                },
                            ),
                            Err(e) => (
                                PalletV {
                                    status: Status::Nothing,
                                    queued: clear_invalid_v(fin.0.queued),
                                    events: fin.0.events.push(
                                        Event::VerificationFailed(0, e),
                                    ),
                                    ..fin.0
                                },
                                ProviderV {
                                    results: prov.results.push(VerificationResult::Invalid),
                                    ..prov
                                },
                            ),
                        }
                    }
                },
            }
        },
    }
}

/// Whether one supports page stays within the configured bounds.
pub open spec fn supports_bounded(
    s: Seq<(AccountId, SupportV)>,
    max_winners: u32,
    max_backers: u32,
) -> bool {
    &&& s.len() <= max_winners
    &&& forall|k: int| 0 <= k < s.len() ==> (#[trigger] s[k]).1.voters.len() <= max_backers
}

/// Whether every page of a paged solution stays within the bounds.
pub open spec fn pages_bounded(
    pages: Seq<Seq<(AccountId, SupportV)>>,
    max_winners: u32,
    max_backers: u32,
) -> bool {
    forall|p: int|
        0 <= p < pages.len() ==> supports_bounded(#[trigger] pages[p], max_winners, max_backers)
}

/// The verifier: configuration, the queued-solution store, the state
/// machine position, the score floor, and the events announced so far.
pub struct Pallet {
    /// The configuration.
    pub config: Config,
    /// The double-buffered solution store.
    pub queued: QueuedSolution,
    /// Idle, or the page consumed on the next tick.
    pub status: Status,
    /// The floor every untrusted claimed score must clear, if set.
    pub minimum_untrusted_score: Option<ElectionScore>,
    /// Every event announced so far, oldest first.
    pub events: Vec<Event>,
}

impl View for Pallet {
    type V = PalletV;

    open spec fn view(&self) -> PalletV {
        PalletV {
            config: self.config,
            queued: self.queued@,
            status: self.status,
            minimum_untrusted_score: self.minimum_untrusted_score,
            events: self.events@,
        }
    }
}

impl Pallet {
    /// A fresh, idle verifier with an empty store.
    pub fn new(config: Config) -> (r: Pallet)
        requires
            config.pages >= 1,
        ensures
            r@.config == config,
            r@.queued == crate::queued::empty_queued(config.pages as int),
            r@.status == Status::Nothing,
            r@.minimum_untrusted_score == Option::<ElectionScore>::None,
            r@.events == Seq::<Event>::empty(),
            p_wf(r@),
    {
        Pallet {
            config,
            queued: QueuedSolution::new(config.pages as usize),
            status: Status::Nothing,
            minimum_untrusted_score: None,
            events: Vec::new(),
        }
    }

    /// What the verifier is doing right now.
    pub fn status(&self) -> (r: Status)
        ensures
            r == self@.status,
    {
        self.status
    }

    /// The score of the queued solution, if one is queued.
    pub fn queued_solution(&self) -> (r: Option<ElectionScore>)
        ensures
            r == self@.queued.score,
    {
        self.queued.queued_solution()
    }

    /// The configured score floor, if one is set.
    pub fn minimum_untrusted_score(&self) -> (r: Option<ElectionScore>)
        ensures
            r == self@.minimum_untrusted_score,
    {
        self.minimum_untrusted_score
    }

    /// Set or clear the score floor.
    pub fn set_minimum_untrusted_score(&mut self, maybe_next_score: Option<ElectionScore>)
        ensures
            final(self)@ == (PalletV {
                minimum_untrusted_score: maybe_next_score,
                ..old(self)@
            }),
    {
        self.minimum_untrusted_score = maybe_next_score;
    }

    /// Read one page of the queued (valid) solution.
    pub fn get_queued_solution_page(&self, page: PageIndex) -> (r: Option<Supports>)
        requires
            p_wf(self@),
        ensures
            match r {
                Some(s) => (page as int) < q_pages(self@.queued) && crate::queued::q_valid(
                    self@.queued,
                )[page as int] == Some(supports_view(s)),
                None => (page as int) >= q_pages(self@.queued) || crate::queued::q_valid(
                    self@.queued,
                )[page as int] is None,
            },
    {
        self.queued.get_queued_solution_page(page)
    }

    /// Begin verification at the most significant page.  Rejected while a
    /// verification is already ongoing.
    pub fn start(&mut self) -> (r: Result<(), Error>)
        requires
            p_wf(old(self)@),
        ensures
            p_wf(final(self)@),
            match old(self)@.status {
                Status::Nothing => r == Ok::<(), Error>(()) && final(self)@ == (PalletV {
                    status: Status::Ongoing((old(self)@.config.pages - 1) as PageIndex),
                    ..old(self)@
                }),
                Status::Ongoing(_) => r == Err::<(), Error>(Error::CallNotAllowed) && final(self)@
                    == old(self)@,
            },
    {
        match self.status {
            Status::Ongoing(_) => Err(Error::CallNotAllowed),
            Status::Nothing => {
                self.status = Status::Ongoing(self.config.pages - 1);
                Ok(())
            },
        }
    }

    /// Wipe all verifier state: the store and the state machine position.
    pub fn kill(&mut self)
        requires
            p_wf(old(self)@),
        ensures
            p_wf(final(self)@),
            final(self)@ == (PalletV {
                queued: crate::queued::empty_queued(q_pages(old(self)@.queued)),
                status: Status::Nothing,
                ..old(self)@
            }),
    {
        self.queued.kill();
        self.status = Status::Nothing;
    }

    /// Hold a claimed score against the admission gate: it must improve on
    /// the queued score by the configured threshold and clear the minimum
    /// untrusted score; otherwise the claim is `ScoreTooLow`.
    pub fn ensure_score_quality(&self, score: ElectionScore) -> (r: Result<(), FeasibilityError>)
        ensures
            r == if score_quality_ok(self@, score) {
                Ok::<(), FeasibilityError>(())
            } else {
                Err::<(), FeasibilityError>(FeasibilityError::ScoreTooLow)
            },
    {
        let is_improvement = match self.queued.queued_solution() {
            None => true,
            Some(best) => is_score_better(score, best, self.config.solution_improvement_threshold),
        };
        if !is_improvement {
            return Err(FeasibilityError::ScoreTooLow);
        }
        let clears_floor = match self.minimum_untrusted_score {
            None => true,
            Some(floor) => is_score_better(score, floor, 0),
        };
        if !clears_floor {
            return Err(FeasibilityError::ScoreTooLow);
        }
        Ok(())
    }

    /// A copy of every event announced so far, oldest first.
    pub fn events(&self) -> (r: Vec<Event>)
        ensures
            r@ == self@.events,
    {
        let mut r: Vec<Event> = Vec::new();
        let mut i: usize = 0;
        while i < self.events.len()
            invariant
                i <= self.events@.len(),
                r@ == self.events@.subrange(0, i as int),
            decreases self.events.len() - i,
        {
            r.push(self.events[i]);
            proof {
                assert(r@ =~= self.events@.subrange(0, i + 1));
            }
            i = i + 1;
        }
        proof {
            assert(r@ =~= self.events@);
        }
        r
    }

    /// The finalization step after the last page: recompute score and
    /// winner count from the backings and hold them against claim and
    /// desired count, exactly as [`finalize_verification_v`] states it.
    fn finalize_verification(&mut self, claimed_score: ElectionScore, desired_targets: u32) -> (r:
        Result<(), FeasibilityError>)
        requires
            p_wf(old(self)@),
        ensures
            p_wf(final(self)@),
            (final(self)@, r) == finalize_verification_v(old(self)@, claimed_score, desired_targets),
    {
        match self.queued.final_score(self.config.max_backers_per_winner) {
            Err(e) => {
                self.queued.clear_invalid();
                Err(e)
            },
            Ok((final_score, winner_count)) => {
                let score_ok = final_score == claimed_score;
                let count_ok = winner_count == desired_targets;
                if score_ok && count_ok {
                    let old_score = self.queued.queued_solution();
                    self.events.push(Event::Queued(final_score, old_score));
                    self.queued.finalize_correct(final_score);
                    Ok(())
                } else if !count_ok {
                    self.queued.clear_invalid();
                    Err(FeasibilityError::WrongWinnerCount)
                } else {
                    self.queued.clear_invalid();
                    Err(FeasibilityError::InvalidScore)
                }
            },
        }
    }

    /// One tick of the state machine, exactly as [`tick_v`] states it:
    /// consume one page from the provider, feasibility-check it, and
    /// advance, finalize, or abort.
    pub fn do_on_initialize(&mut self, snapshot: &Snapshot, provider: &mut SolutionDataProvider)
        requires
            p_wf(old(self)@),
        ensures
            p_wf(final(self)@),
            (final(self)@, final(provider)@) == tick_v(old(self)@, snapshot@, old(provider)@),
    {
        let ghost p0 = self@;
        let ghost prov0 = provider@;
        let current_page = match self.status {
            Status::Nothing => {
                return ;
            },
            Status::Ongoing(p) => p,
        };
        let page_solution = provider.get_page(current_page);
        let maybe_supports = self.feasibility_check_page(snapshot, &page_solution, current_page);
        match maybe_supports {
            Ok(supports) => {
                let ghost sups_v = supports_view(supports);
                proof {
                    assert(feasibility_spec(
                        snapshot@,
                        provider_page(prov0, current_page as int),
                        current_page as int,
                        p0.config.max_backers_per_winner,
                        p0.config.max_winners_per_page,
                    ) == Ok::<_, FeasibilityError>(sups_v));
                    assert(sups_v.len() <= p0.config.max_winners_per_page);
                    assert(forall|k: int|
                        0 <= k < sups_v.len() ==> (#[trigger] sups_v[k]).1.voters.len()
                            <= p0.config.max_backers_per_winner);
                    assert(snapshot@.desired_targets is Some);
                }
                let winner_count = supports.len() as u32;
                self.events.push(Event::Verified(current_page, winner_count));
                self.queued.set_invalid_page(current_page, supports);
                if current_page > 0 {
                    self.status = Status::Ongoing(current_page - 1);
                } else {
                    let claimed_score = provider.get_score();
                    let desired_targets = match snapshot.desired_targets {
                        Some(d) => d,
                        None => {
                            // The feasibility check of this very page read
                            // the desired count, so it cannot be absent.
                            proof {
                                assert(false);
                            }
                            0
                        },
                    };
                    match self.finalize_verification(claimed_score, desired_targets) {
                        Ok(_) => {
                            provider.report_result(VerificationResult::Valid);
                        },
                        Err(e) => {
                            self.events.push(Event::VerificationFailed(current_page, e));
                            self.queued.clear_invalid();
                            provider.report_result(VerificationResult::Invalid);
                        },
                    }
                    self.status = Status::Nothing;
                }
            },
            Err(e) => {
                self.events.push(Event::VerificationFailed(current_page, e));
                self.status = Status::Nothing;
                self.queued.clear_invalid();
                provider.report_result(VerificationResult::Invalid);
            },
        }
    }

    /// Install a whole solution into the valid buffer without verification.
    /// Allowed only in the `Emergency` phase, with every page within the
    /// configured bounds, and with exactly one supports page per round
    /// page.
    pub fn set_emergency_solution(
        &mut self,
        phase: Phase,
        paged_supports: Vec<Supports>,
        claimed_score: ElectionScore,
    ) -> (r: Result<(), Error>)
        requires
            p_wf(old(self)@),
        ensures
            p_wf(final(self)@),
            ({
                let pv = paged_supports@.map_values(|s: Supports| supports_view(s));
                let mw = old(self)@.config.max_winners_per_page;
                let mb = old(self)@.config.max_backers_per_winner;
                if !(phase is Emergency) {
                    r == Err::<(), Error>(Error::CallNotAllowed) && final(self)@ == old(self)@
                } else if !pages_bounded(pv, mw, mb) {
                    r == Err::<(), Error>(Error::WrongSupportBounds) && final(self)@ == old(self)@
                } else if pv.len() != old(self)@.config.pages as int {
                    r == Err::<(), Error>(Error::WrongPageCount) && final(self)@ == old(self)@
                } else {
                    r == Ok::<(), Error>(()) && final(self)@ == (PalletV {
                        queued: force_set_valid_v(old(self)@.queued, pv, claimed_score),
                        ..old(self)@
                    })
                }
            }),
    {
        let ghost pv = paged_supports@.map_values(|s: Supports| supports_view(s));
        match phase {
            Phase::Emergency => {},
            _ => {
                return Err(Error::CallNotAllowed);
            },
        }
        let mut p: usize = 0;
        while p < paged_supports.len()
            invariant
                self@ == old(self)@,
                p_wf(self@),
                phase is Emergency,
                p <= paged_supports@.len(),
                pv == paged_supports@.map_values(|s: Supports| supports_view(s)),
                forall|i: int|
                    0 <= i < p ==> supports_bounded(
                        #[trigger] pv[i],
                        self@.config.max_winners_per_page,
                        self@.config.max_backers_per_winner,
                    ),
        decreases paged_supports@.len() - p,
        {
            let page = &paged_supports[p];
            if page.len() > self.config.max_winners_per_page as usize {
                proof {
                    assert(!supports_bounded(
                        pv[p as int],
                        self@.config.max_winners_per_page,
                        self@.config.max_backers_per_winner,
                    ));
                }
                return Err(Error::WrongSupportBounds);
            }
            let mut k: usize = 0;
            while k < page.len()
                invariant
                    self@ == old(self)@,
                    p_wf(self@),
                    phase is Emergency,
                    0 <= p < paged_supports@.len(),
                    page@ == paged_supports@[p as int]@,
                    pv == paged_supports@.map_values(|s: Supports| supports_view(s)),
                    k <= page@.len(),
                    forall|j: int|
                        0 <= j < k ==> (#[trigger] pv[p as int][j]).1.voters.len()
                            <= self@.config.max_backers_per_winner,
                decreases page@.len() - k,
            {
                proof {
                    assert(pv[p as int][k as int].1.voters == page@[k as int].1.voters@);
                }
                if page[k].1.voters.len() > self.config.max_backers_per_winner as usize {
                    proof {
                        assert(!supports_bounded(
                            pv[p as int],
                            self@.config.max_winners_per_page,
                            self@.config.max_backers_per_winner,
                        ));
                    }
                    return Err(Error::WrongSupportBounds);
                }
                k = k + 1;
            }
            proof {
                assert(pv[p as int].len() == page@.len());
                assert(supports_bounded(
                    pv[p as int],
                    self@.config.max_winners_per_page,
                    self@.config.max_backers_per_winner,
                ));
            }
            p = p + 1;
        }
        if paged_supports.len() != self.config.pages as usize {
            return Err(Error::WrongPageCount);
        }
        self.queued.force_set_valid(&paged_supports, claimed_score);
        proof {
            assert(Seq::new(paged_supports@.len(), |i: int| supports_view(paged_supports@[i]))
                =~= pv);
        }
        Ok(())
    }

    /// Install a single-page solution directly into the valid buffer,
    /// together with its already verified score.  Only meaningful for
    /// single-page rounds.
    pub fn force_set_single_page_verified_solution(
        &mut self,
        partial_supports: Supports,
        verified_score: ElectionScore,
    )
        requires
            p_wf(old(self)@),
            old(self)@.config.pages == 1,
        ensures
            p_wf(final(self)@),
            final(self)@ == (PalletV {
                queued: force_set_single_page_valid_v(
                    old(self)@.queued,
                    0,
                    supports_view(partial_supports),
                    verified_score,
                ),
                ..old(self)@
            }),
    {
        self.queued.force_set_single_page_valid(0, partial_supports, verified_score);
    }

    /// Run the per-page feasibility check against the given snapshot, with
    /// this verifier's bounds.
    pub fn feasibility_check_page(
        &self,
        snapshot: &Snapshot,
        partial_solution: &SolutionPage,
        page: PageIndex,
    ) -> (r: Result<Supports, FeasibilityError>)
        ensures
            ({
                let spec_r = feasibility_spec(
                    snapshot@,
                    partial_solution@,
                    page as int,
                    self@.config.max_backers_per_winner,
                    self@.config.max_winners_per_page,
                );
                match r {
                    Ok(s) => spec_r == Ok::<_, FeasibilityError>(supports_view(s)),
                    Err(e) => spec_r == Err::<Seq<(AccountId, SupportV)>, _>(e),
                }
            }),
    {
        feasibility_check(
            snapshot,
            partial_solution,
            page,
            self.config.max_backers_per_winner,
            self.config.max_winners_per_page,
        )
    }
}

} // verus!
