//! The global properties the verification pipeline maintains.
//!
//! These proof functions state, over the mathematical model, what holds of
//! every run of the state machine: the valid solution is never touched
//! until a challenger is committed atomically, the invalid buffer mirrors
//! exactly the pages consumed so far, backings vanish whenever the verifier
//! is idle, a score is queued exactly when the valid buffer is fully
//! populated, and a queued score is exactly the score recomputed from the
//! queued pages.

use vstd::prelude::*;

use crate::queued::{
    all_backing_pages, compress_supports, final_score_v, fold_backing_pages, q_invalid, q_pages,
    q_valid, q_wf, winner_count_of, QueuedV,
};
use crate::score::{evaluate_backings_spec, ElectionScore};
use crate::snapshot::SnapshotV;
use crate::solution::feasibility_spec;
use crate::types::{AccountId, FeasibilityError, PartialBackings, Status, SupportV};
use crate::pallet::{p_wf, provider_page, tick_v, Event, PalletV, ProviderV};

verus! {

/// A tick that keeps the verifier busy keeps the valid buffer and the
/// queued score untouched: while a challenger is being assembled, only the
/// invalid buffer changes.
pub proof fn lemma_tick_ongoing_preserves_valid(
    p: PalletV,
    snap: SnapshotV,
    prov: ProviderV,
)
    requires
        p_wf(p),
        p.status is Ongoing,
        tick_v(p, snap, prov).0.status is Ongoing,
    ensures
        q_valid(tick_v(p, snap, prov).0.queued) == q_valid(p.queued),
        tick_v(p, snap, prov).0.queued.score == p.queued.score,
{
}

/// When a tick ends a verification, exactly one of two things happened:
/// either the challenger failed, the valid buffer and the queued score are
/// exactly what they were, and the last event is `VerificationFailed`; or
/// the challenger was committed, the last event is `Queued` carrying the
/// previously queued score, the new score is the committed one, and the
/// valid buffer now is the assembled invalid buffer with the last page
/// added.
pub proof fn lemma_tick_terminal(p: PalletV, snap: SnapshotV, prov: ProviderV)
    requires
        p_wf(p),
        p.status is Ongoing,
        tick_v(p, snap, prov).0.status is Nothing,
    ensures
        ({
            let p2 = tick_v(p, snap, prov).0;
            ||| {
                &&& q_valid(p2.queued) == q_valid(p.queued)
                &&& p2.queued.score == p.queued.score
                &&& p2.events.len() > p.events.len()
                &&& p2.events.last() matches Event::VerificationFailed(_, _)
            }
            ||| {
                &&& p2.events.len() > p.events.len()
                &&& (p2.events.last() matches Event::Queued(ns, os) && os == p.queued.score
                    && p2.queued.score == Some(ns))
                &&& exists|sups: Seq<(AccountId, SupportV)>|
                    q_valid(p2.queued) == q_invalid(p.queued).update(
                        p.status->Ongoing_0 as int,
                        Some(sups),
                    )
            }
        }),
{
    let page = p.status->Ongoing_0;
    let sol = provider_page(prov, page as int);
    let fr = feasibility_spec(
        snap,
        sol,
        page as int,
        p.config.max_backers_per_winner,
        p.config.max_winners_per_page,
    );
    if fr is Ok {
        let sups = fr.unwrap();
        let p2 = tick_v(p, snap, prov).0;
        assert(page == 0);
        if p2.events.last() matches Event::Queued(ns, os) {
            assert(q_valid(p2.queued) == q_invalid(p.queued).update(page as int, Some(sups)));
        }
    }
}

/// The round invariant of the assembly machinery.
///
/// When the verifier is idle, the invalid buffer and the backings are
/// entirely empty.  While page `page` is the next to be consumed, exactly
/// the pages above it hold something — in the invalid buffer and in the
/// backings alike — and each backing page is exactly the compressed form of
/// the supports stored at that page.
pub open spec fn round_inv(p: PalletV) -> bool {
    match p.status {
        Status::Nothing => forall|q: int|
            0 <= q < q_pages(p.queued) ==> (#[trigger] q_invalid(p.queued)[q]) is None
                && p.queued.backings[q] is None,
        Status::Ongoing(page) => forall|q: int|
            0 <= q < q_pages(p.queued) ==> {
                &&& ((#[trigger] q_invalid(p.queued)[q]) is Some <==> q > page as int)
                &&& (p.queued.backings[q] is Some <==> q > page as int)
                &&& (q_invalid(p.queued)[q] is Some ==> p.queued.backings[q] == Some(
                    compress_supports(q_invalid(p.queued)[q].unwrap()),
                ))
            },
    }
}

/// While a verification is ongoing, every page already written to the
/// invalid buffer was announced by a `Verified` event for exactly that
/// page.
pub open spec fn verified_events_cover(p: PalletV) -> bool {
    match p.status {
        Status::Ongoing(_) => forall|q: int|
            0 <= q < q_pages(p.queued) && (#[trigger] q_invalid(p.queued)[q]) is Some
                ==> exists|k: int|
                0 <= k < p.events.len() && ((#[trigger] p.events[k]) matches Event::Verified(pq, _)
                    && pq as int == q),
        Status::Nothing => true,
    }
}

/// One tick preserves the event coverage of the invalid buffer: the page a
/// tick writes is the page its `Verified` event announces.
pub proof fn lemma_tick_preserves_verified_events(p: PalletV, snap: SnapshotV, prov: ProviderV)
    requires
        p_wf(p),
        verified_events_cover(p),
    ensures
        verified_events_cover(tick_v(p, snap, prov).0),
{
    let p2 = tick_v(p, snap, prov).0;
    match p.status {
        Status::Nothing => {},
        Status::Ongoing(page) => {
            let fr = feasibilityspec_helper(p, snap, prov);
            if fr is Ok && page > 0 {
                let sups = fr.unwrap();
                assert(q_invalid(p2.queued) == q_invalid(p.queued).update(page as int, Some(sups)));
                assert forall|q: int|
                    0 <= q < q_pages(p2.queued) && (#[trigger] q_invalid(p2.queued)[q])
                        is Some implies exists|k: int|
                    0 <= k < p2.events.len() && ((#[trigger] p2.events[k]) matches Event::Verified(
                        pq,
                        _,
                    ) && pq as int == q) by {
                    if q == page as int {
                        assert(p2.events[p.events.len() as int] matches Event::Verified(pq, _)
                            && pq as int == q);
                    } else {
                        assert(q_invalid(p.queued)[q] is Some);
                        let k = choose|k: int|
                            0 <= k < p.events.len() && ((#[trigger] p.events[k])
                                matches Event::Verified(pq, _) && pq as int == q);
                        assert(p2.events[k] == p.events[k]);
                    }
                }
            }
        },
    }
}

/// A queued score exists exactly when the valid buffer is fully populated:
/// one supports entry per page — possibly empty, but present.
pub open spec fn score_coherent(q: QueuedV) -> bool {
    (q.score is Some) <==> (forall|p: int|
        0 <= p < q_pages(q) ==> (#[trigger] q_valid(q)[p]) is Some)
}

/// An empty store is score-coherent: no score, and no valid page present.
pub proof fn lemma_empty_store_coherent(n: int)
    requires
        n >= 1,
    ensures
        score_coherent(crate::queued::empty_queued(n)),
{
    let q = crate::queued::empty_queued(n);
    assert(q_valid(q)[0] is None);
}

/// Forcing a whole solution into the valid buffer keeps score coherence:
/// every page is installed, and a score with them.
pub proof fn lemma_force_set_valid_coherent(
    q: QueuedV,
    pages: Seq<Seq<(AccountId, SupportV)>>,
    score: ElectionScore,
)
    requires
        q_wf(q),
        pages.len() == q_pages(q),
    ensures
        score_coherent(crate::queued::force_set_valid_v(q, pages, score)),
{
}

/// Forcing a single-page solution into a single-page store keeps score
/// coherence: the one page is installed, and a score with it.
pub proof fn lemma_force_single_page_coherent(
    q: QueuedV,
    s: Seq<(AccountId, SupportV)>,
    score: ElectionScore,
)
    requires
        q_wf(q),
        q_pages(q) == 1,
    ensures
        score_coherent(crate::queued::force_set_single_page_valid_v(q, 0, s, score)),
{
}

/// One tick preserves the round invariant and score coherence.
pub proof fn lemma_tick_preserves_inv(p: PalletV, snap: SnapshotV, prov: ProviderV)
    requires
        p_wf(p),
        round_inv(p),
        score_coherent(p.queued),
    ensures
        p_wf(tick_v(p, snap, prov).0),
        round_inv(tick_v(p, snap, prov).0),
        score_coherent(tick_v(p, snap, prov).0.queued),
{
    let p2 = tick_v(p, snap, prov).0;
    match p.status {
        Status::Nothing => {},
        Status::Ongoing(page) => {
            let sol = provider_page(prov, page as int);
            let fr = feasibility_spec(
                snap,
                sol,
                page as int,
                p.config.max_backers_per_winner,
                p.config.max_winners_per_page,
            );
            match fr {
                Err(_) => {
                    assert(round_inv(p2));
                    assert(score_coherent(p2.queued));
                },
                Ok(sups) => {
                    let q1 = crate::queued::set_invalid_page_v(p.queued, page as int, sups);
                    assert(q_invalid(q1) == q_invalid(p.queued).update(page as int, Some(sups)));
                    assert(q_valid(q1) == q_valid(p.queued));
                    if page > 0 {
                        assert(round_inv(p2));
                        assert(score_coherent(p2.queued));
                    } else {
                        let claimed = prov.score;
                        let desired = snap.desired_targets.unwrap();
                        let fin = crate::pallet::finalize_verification_v(
                            PalletV { queued: q1, events: p.events.push(Event::Verified(page, sups.len() as u32)), ..p },
                            claimed,
                            desired,
                        );
                        match fin.1 {
                            Ok(_) => {
                                let qf = fin.0.queued;
                                assert(qf == crate::queued::finalize_correct_v(
                                    q1,
                                    final_score_v(q1, p.config.max_backers_per_winner).unwrap().0,
                                ));
                                assert(q_valid(qf) == q_invalid(q1));
                                assert forall|q: int| 0 <= q < q_pages(qf) implies (
                                #[trigger] q_valid(qf)[q]) is Some by {
                                    assert(q_invalid(q1)[q] is Some);
                                }
                                assert(round_inv(p2));
                                assert(score_coherent(p2.queued));
                            },
                            Err(_) => {
                                assert(round_inv(p2));
                                assert(score_coherent(p2.queued));
                            },
                        }
                    }
                },
            }
        },
    }
}

/// Starting a round from idle establishes the round invariant: nothing has
/// been assembled yet.
pub proof fn lemma_start_preserves_inv(p: PalletV)
    requires
        p_wf(p),
        p.status is Nothing,
        round_inv(p),
    ensures
        round_inv(
            PalletV { status: Status::Ongoing((p.config.pages - 1) as u32), ..p },
        ),
{
}

/// Backings are empty whenever the verifier is idle: the idle case of the
/// round invariant, stated on its own.
pub proof fn lemma_idle_backings_empty(p: PalletV)
    requires
        round_inv(p),
        p.status is Nothing,
    ensures
        forall|q: int|
            0 <= q < q_pages(p.queued) ==> (#[trigger] p.queued.backings[q]) is None,
{
    assert forall|q: int| 0 <= q < q_pages(p.queued) implies (#[trigger] p.queued.backings[q])
        is None by {
        assert(q_invalid(p.queued)[q] is None);
    }
}

/// The score a committing tick stores is exactly the score recomputed by
/// folding the compressed backings of the pages that now form the valid
/// buffer — the claim is never taken on trust.
pub proof fn lemma_queued_score_recomputed(p: PalletV, snap: SnapshotV, prov: ProviderV)
    requires
        p_wf(p),
        round_inv(p),
        p.status is Ongoing,
        (tick_v(p, snap, prov).0.events.len() > p.events.len() && tick_v(
            p,
            snap,
            prov,
        ).0.events.last() matches Event::Queued(_, _)),
    ensures
        ({
            let p2 = tick_v(p, snap, prov).0;
            let vp = q_valid(p2.queued);
            &&& forall|q: int| 0 <= q < q_pages(p2.queued) ==> (#[trigger] vp[q]) is Some
            &&& p2.queued.score == Some(
                evaluate_backings_spec(
                    fold_backing_pages(
                        Seq::new(
                            q_pages(p2.queued) as nat,
                            |q: int| compress_supports(vp[q].unwrap()),
                        ),
                    ),
                ),
            )
        }),
{
    let page = p.status->Ongoing_0;
    let sol = provider_page(prov, page as int);
    let fr = feasibilityspec_helper(p, snap, prov);
    let p2 = tick_v(p, snap, prov).0;
    assert(fr is Ok);
    let sups = fr.unwrap();
    assert(page == 0);
    let q1 = crate::queued::set_invalid_page_v(p.queued, 0, sups);
    let fs = final_score_v(q1, p.config.max_backers_per_winner);
    assert(fs is Ok);
    let committed = fs.unwrap().0;
    assert(p2.queued.score == Some(committed));
    let vp = q_valid(p2.queued);
    assert(vp == q_invalid(q1));
    assert forall|q: int| 0 <= q < q_pages(p2.queued) implies (#[trigger] vp[q]) is Some by {
        assert(q_invalid(q1)[q] is Some);
    }
    assert forall|q: int| 0 <= q < q_pages(p2.queued) implies #[trigger] q1.backings[q] == Some(
        compress_supports(vp[q].unwrap()),
    ) by {
        if q > 0 {
            assert(q_invalid(p.queued)[q] is Some);
            assert(p.queued.backings[q] == Some(
                compress_supports(q_invalid(p.queued)[q].unwrap()),
            ));
        }
    }
    assert(all_backing_pages(q1) =~= Seq::new(
        q_pages(p2.queued) as nat,
        |q: int| compress_supports(vp[q].unwrap()),
    ));
}

/// Helper: the feasibility outcome a tick works with.
spec fn feasibilityspec_helper(p: PalletV, snap: SnapshotV, prov: ProviderV) -> Result<
    Seq<(AccountId, SupportV)>,
    FeasibilityError,
> {
    feasibility_spec(
        snap,
        provider_page(prov, p.status->Ongoing_0 as int),
        p.status->Ongoing_0 as int,
        p.config.max_backers_per_winner,
        p.config.max_winners_per_page,
    )
}

/// A single-page round completes in exactly one tick: whatever the page
/// holds, the verifier is idle again afterwards.
pub proof fn lemma_single_page_completes(p: PalletV, snap: SnapshotV, prov: ProviderV)
    requires
        p_wf(p),
        p.config.pages == 1,
        p.status is Ongoing,
    ensures
        tick_v(p, snap, prov).0.status is Nothing,
{
    assert(p.status->Ongoing_0 == 0);
}

/// An entirely empty page is a legal verification step: it converts to an
/// empty supports page, and its backing entry is present but empty.
pub proof fn lemma_empty_page_feasible(
    snap: SnapshotV,
    page: int,
    max_backers: u32,
    max_winners: u32,
)
    requires
        snap.targets is Some,
        0 <= page < snap.voter_pages.len(),
        snap.voter_pages[page] is Some,
        snap.desired_targets is Some,
    ensures
        feasibility_spec(snap, Seq::empty(), page, max_backers, max_winners) == Ok::<
            _,
            FeasibilityError,
        >(Seq::<(AccountId, SupportV)>::empty()),
        compress_supports(Seq::<(AccountId, SupportV)>::empty()) == Seq::<
            (AccountId, PartialBackings),
        >::empty(),
{
    let sol = Seq::<(u32, Seq<(u16, u16)>)>::empty();
    assert(crate::solution::page_indices_valid(
        sol,
        snap.voter_pages[page].unwrap().len() as int,
        snap.targets.unwrap().len() as int,
    ));
    assert(crate::solution::page_votes_declared(
        sol,
        snap.voter_pages[page].unwrap(),
        snap.targets.unwrap(),
    ));
    assert(crate::solution::page_dists_nonempty(sol));
    assert(compress_supports(Seq::<(AccountId, SupportV)>::empty()) =~= Seq::<
        (AccountId, PartialBackings),
    >::empty());
}

/// One tick keeps the verifier structurally sound.
pub proof fn lemma_tick_wf(p: PalletV, snap: SnapshotV, prov: ProviderV)
    requires
        p_wf(p),
    ensures
        p_wf(tick_v(p, snap, prov).0),
{
}

/// Across any number of ticks, the valid buffer and the queued score are
/// byte-identical to what they were — unless a `Queued` event was emitted
/// in between, which is the one way a challenger replaces them.
pub proof fn lemma_run_preserves_valid_unless_queued(
    p: PalletV,
    snap: SnapshotV,
    prov: ProviderV,
    n: nat,
)
    requires
        p_wf(p),
    ensures
        ({
            let r = run_ticks(p, snap, prov, n);
            &&& r.0.events.len() >= p.events.len()
            &&& forall|i: int| 0 <= i < p.events.len() ==> #[trigger] r.0.events[i] == p.events[i]
            &&& ((q_valid(r.0.queued) == q_valid(p.queued) && r.0.queued.score == p.queued.score)
                || exists|k: int|
                p.events.len() <= k < r.0.events.len() && (#[trigger] r.0.events[k]) matches Event::Queued(_, _))
        }),
    decreases n,
{
    if n > 0 {
        let t1 = tick_v(p, snap, prov);
        lemma_tick_wf(p, snap, prov);
        lemma_run_preserves_valid_unless_queued(t1.0, snap, t1.1, (n - 1) as nat);
        let r = run_ticks(p, snap, prov, n);
        assert(r == run_ticks(t1.0, snap, t1.1, (n - 1) as nat));
        assert(t1.0.events.len() >= p.events.len());
        assert(forall|i: int| 0 <= i < p.events.len() ==> #[trigger] t1.0.events[i] == p.events[i]);
        if q_valid(t1.0.queued) == q_valid(p.queued) && t1.0.queued.score == p.queued.score {
            if !(q_valid(r.0.queued) == q_valid(p.queued) && r.0.queued.score == p.queued.score) {
                let k = choose|k: int|
                    t1.0.events.len() <= k < r.0.events.len() && (#[trigger] r.0.events[k]) matches Event::Queued(_, _);
                assert(p.events.len() <= k < r.0.events.len() && r.0.events[k] matches Event::Queued(_, _));
            }
        } else {
            // Only a commit changes the valid buffer or the score, and a
            // commit pushes `Queued` as the last event of its tick.
            assert(t1.0.events.len() > p.events.len());
            assert(t1.0.events.last() matches Event::Queued(_, _));
            let k = t1.0.events.len() - 1;
            assert(r.0.events[k] == t1.0.events[k]);
            assert(p.events.len() <= k < r.0.events.len() && r.0.events[k] matches Event::Queued(_, _));
        }
    }
}

/// A sequence of ticks, each applied to the outcome of the one before.
pub open spec fn run_ticks(p: PalletV, snap: SnapshotV, prov: ProviderV, n: nat) -> (
    PalletV,
    ProviderV,
)
    decreases n,
{
    if n == 0 {
        (p, prov)
    } else {
        let r1 = tick_v(p, snap, prov);
        run_ticks(r1.0, snap, r1.1, (n - 1) as nat)
    }
}

/// The feasibility outcome of round page `q` under a given provider.
pub open spec fn page_feas(p: PalletV, snap: SnapshotV, prov: ProviderV, q: int) -> Result<
    Seq<(AccountId, SupportV)>,
    FeasibilityError,
> {
    feasibility_spec(
        snap,
        provider_page(prov, q),
        q,
        p.config.max_backers_per_winner,
        p.config.max_winners_per_page,
    )
}

/// The aggregated backings a fully feasible solution folds to.
pub open spec fn solution_agg(p: PalletV, snap: SnapshotV, prov: ProviderV) -> Seq<(
    AccountId,
    PartialBackings,
)> {
    fold_backing_pages(
        Seq::new(
            p.config.pages as nat,
            |q: int| compress_supports(page_feas(p, snap, prov, q).unwrap()),
        ),
    )
}

/// The round-trip hypotheses of a freshly proposed solution: every page is
/// feasible, the aggregated backer counts respect the bound, the aggregate
/// winner count is the desired one, and the claimed score is exactly what
/// the backings fold to.
pub open spec fn solution_checks_out(p: PalletV, snap: SnapshotV, prov: ProviderV) -> bool {
    &&& forall|q: int|
        0 <= q < p.config.pages as int ==> (#[trigger] page_feas(p, snap, prov, q)) is Ok
    &&& snap.desired_targets is Some
    &&& forall|k: int|
        0 <= k < solution_agg(p, snap, prov).len() ==> (#[trigger] solution_agg(
            p,
            snap,
            prov,
        )[k]).1.backers <= p.config.max_backers_per_winner
    &&& winner_count_of(solution_agg(p, snap, prov)) == snap.desired_targets.unwrap()
    &&& prov.score == evaluate_backings_spec(solution_agg(p, snap, prov))
}

/// The generalized induction step behind [`lemma_round_trip_queues`]: with
/// pages above `page` already assembled from the feasibility outcomes, the
/// remaining `page + 1` ticks finish the round and commit the solution.
proof fn lemma_run_commits(p: PalletV, snap: SnapshotV, prov: ProviderV, page: int)
    requires
        p_wf(p),
        p.status == Status::Ongoing(page as u32),
        0 <= page < p.config.pages as int,
        solution_checks_out(p, snap, prov),
        forall|q: int|
            page < q < p.config.pages as int ==> (#[trigger] q_invalid(p.queued)[q]) == Some(
                page_feas(p, snap, prov, q).unwrap(),
            ) && p.queued.backings[q] == Some(
                compress_supports(page_feas(p, snap, prov, q).unwrap()),
            ),
        forall|q: int|
            0 <= q <= page ==> (#[trigger] q_invalid(p.queued)[q]) is None
                && p.queued.backings[q] is None,
    ensures
        ({
            let r = run_ticks(p, snap, prov, (page + 1) as nat);
            &&& r.0.status == Status::Nothing
            &&& r.0.queued.score == Some(prov.score)
            &&& forall|q: int|
                0 <= q < p.config.pages as int ==> (#[trigger] q_valid(r.0.queued)[q]) == Some(
                    page_feas(p, snap, prov, q).unwrap(),
                )
            &&& r.1.results == prov.results.push(crate::types::VerificationResult::Valid)
            &&& r.0.events.len() == p.events.len() + page + 2
            &&& r.0.events.last() == Event::Queued(prov.score, p.queued.score)
        }),
    decreases page,
{
    let mb = p.config.max_backers_per_winner;
    let fr = page_feas(p, snap, prov, page);
    let sups = fr.unwrap();
    let q1 = crate::queued::set_invalid_page_v(p.queued, page, sups);
    let t1 = tick_v(p, snap, prov);
    assert(q_invalid(q1) == q_invalid(p.queued).update(page, Some(sups)));
    assert(q_valid(q1) == q_valid(p.queued));
    if page > 0 {
        let p1 = t1.0;
        assert(t1.1 == prov);
        assert(p1.status == Status::Ongoing((page - 1) as u32));
        assert(p1.config == p.config);
        assert(p1.queued.score == p.queued.score);
        assert(forall|q: int|
            0 <= q < p.config.pages as int ==> #[trigger] page_feas(p1, snap, prov, q) == page_feas(
                p,
                snap,
                prov,
                q,
            ));
        assert(Seq::new(
            p1.config.pages as nat,
            |q: int| compress_supports(page_feas(p1, snap, prov, q).unwrap()),
        ) =~= Seq::new(
            p.config.pages as nat,
            |q: int| compress_supports(page_feas(p, snap, prov, q).unwrap()),
        ));
        assert(solution_agg(p1, snap, prov) == solution_agg(p, snap, prov));
        assert(solution_checks_out(p1, snap, prov));
        assert forall|q: int| page - 1 < q < p.config.pages as int implies (#[trigger] q_invalid(
            p1.queued,
        )[q]) == Some(page_feas(p1, snap, prov, q).unwrap()) && p1.queued.backings[q] == Some(
            compress_supports(page_feas(p1, snap, prov, q).unwrap()),
        ) by {
            if q > page {
                assert(q_invalid(p.queued)[q] == Some(page_feas(p, snap, prov, q).unwrap()));
            }
        }
        lemma_run_commits(p1, snap, prov, page - 1);
        assert(run_ticks(p, snap, prov, (page + 1) as nat) == run_ticks(
            p1,
            snap,
            prov,
            page as nat,
        ));
    } else {
        // The final tick: everything is assembled, and the checks pass by
        // hypothesis.
        let agg = solution_agg(p, snap, prov);
        assert forall|q: int| 0 <= q < q1.backings.len() implies (#[trigger] q1.backings[q])
            is Some by {
            if q > 0 {
                assert(q_invalid(p.queued)[q] is Some);
            }
        }
        assert forall|q: int| 0 <= q < p.config.pages as int implies #[trigger] q1.backings[q]
            == Some(compress_supports(page_feas(p, snap, prov, q).unwrap())) by {
            if q > 0 {
                assert(q_invalid(p.queued)[q] == Some(page_feas(p, snap, prov, q).unwrap()));
                assert(p.queued.backings[q] == Some(
                    compress_supports(page_feas(p, snap, prov, q).unwrap()),
                ));
            }
        }
        assert(all_backing_pages(q1) =~= Seq::new(
            p.config.pages as nat,
            |q: int| compress_supports(page_feas(p, snap, prov, q).unwrap()),
        ));
        assert(final_score_v(q1, mb) == Ok::<_, FeasibilityError>(
            (evaluate_backings_spec(agg), winner_count_of(agg)),
        ));
        let r = run_ticks(p, snap, prov, 1);
        assert(r == run_ticks(t1.0, snap, t1.1, 0));
        assert(r.0 == t1.0 && r.1 == t1.1);
        let qf = t1.0.queued;
        assert(q_valid(qf) == q_invalid(q1));
        assert forall|q: int| 0 <= q < p.config.pages as int implies (#[trigger] q_valid(
            t1.0.queued,
        )[q]) == Some(page_feas(p, snap, prov, q).unwrap()) by {
            if q > 0 {
                assert(q_invalid(p.queued)[q] == Some(page_feas(p, snap, prov, q).unwrap()));
            }
        }
    }
}

/// The round-trip law of a freshly started verification: if every page of
/// the proposed solution is feasible, the aggregated backings respect the
/// backer bound, the aggregate winner count is the desired one, and the
/// claimed score is exactly what the backings fold to, then running one
/// tick per page ends with the verifier idle, exactly that solution in the
/// valid buffer, its recomputed score queued, `Queued` as the last event,
/// and `Valid` reported to the provider.
pub proof fn lemma_round_trip_queues(p: PalletV, snap: SnapshotV, prov: ProviderV)
    requires
        p_wf(p),
        round_inv(p),
        p.status == Status::Ongoing((p.config.pages - 1) as u32),
        solution_checks_out(p, snap, prov),
    ensures
        ({
            let r = run_ticks(p, snap, prov, p.config.pages as nat);
            &&& r.0.status == Status::Nothing
            &&& r.0.queued.score == Some(prov.score)
            &&& forall|q: int|
                0 <= q < p.config.pages as int ==> (#[trigger] q_valid(r.0.queued)[q]) == Some(
                    page_feas(p, snap, prov, q).unwrap(),
                )
            &&& r.1.results == prov.results.push(crate::types::VerificationResult::Valid)
            &&& r.0.events.len() == p.events.len() + p.config.pages + 1
            &&& r.0.events.last() == Event::Queued(prov.score, p.queued.score)
        }),
{
    let msp = p.config.pages as int - 1;
    assert forall|q: int| 0 <= q <= msp implies (#[trigger] q_invalid(p.queued)[q]) is None
        && p.queued.backings[q] is None by {}
    lemma_run_commits(p, snap, prov, msp);
}

/// A winner whose backings, split across every page, exceed the global
/// backer bound in aggregate is rejected at finalization, even when every
/// single page respected the bound.
pub proof fn lemma_aggregate_backers_rejected(q: QueuedV, max_backers: u32)
    requires
        q_wf(q),
        forall|p: int| 0 <= p < q.backings.len() ==> (#[trigger] q.backings[p]) is Some,
        exists|k: int|
            0 <= k < fold_backing_pages(all_backing_pages(q)).len() && (
            #[trigger] fold_backing_pages(all_backing_pages(q))[k]).1.backers > max_backers,
    ensures
        final_score_v(q, max_backers) == Err::<(ElectionScore, u32), _>(
            FeasibilityError::TooManyBackings,
        ),
{
}

} // verus!
