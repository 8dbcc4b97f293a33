//! Boundary behaviors, the force path, the admission gate, and score
//! arithmetic on concrete values.

use multi_block::mock::{
    fake_unsigned_solution, raw_paged_from_supports, raw_paged_solution_low_score, ExtBuilder,
};
use multi_block::pallet::Event;
use multi_block::score::{evaluate_backings, is_score_better, ElectionScore};
use multi_block::solution::SolutionPage;
use multi_block::types::{
    Error, FeasibilityError, NposError, PartialBackings, Phase, Status, Support, Supports,
    VerificationResult,
};

fn score(m: u128, s: u128, q: u128) -> ElectionScore {
    ElectionScore { minimal_stake: m, sum_stake: s, sum_stake_squared: q }
}

#[test]
fn single_page_completes_in_exactly_one_tick() {
    let mut t = ExtBuilder::default().pages(1).build_unchecked();
    t.roll_to(25);
    let solution = t.mine_full_solution().unwrap();
    assert!(t.load_solution_for_verification(solution));
    assert_eq!(t.pallet.status(), Status::Ongoing(0));
    t.roll_to(26);
    // one tick later everything is settled.
    assert_eq!(t.pallet.status(), Status::Nothing);
    assert!(t.pallet.queued_solution().is_some());
    assert!(t.sanity_checks());
}

#[test]
fn empty_page_is_a_legal_step() {
    let mut t = ExtBuilder::default().build_unchecked();
    t.roll_to(25);
    assert!(t.ensure_full_snapshot());
    // an entirely empty page adds zero supports and zero backings.
    let empty = SolutionPage::new_empty();
    let sups = t.pallet.feasibility_check_page(&t.snapshot, &empty, 1).unwrap();
    assert_eq!(sups.len(), 0);
}

#[test]
fn aggregated_backings_respect_the_global_bound() {
    // per page each winner has at most two backers, but in aggregate
    // winner 40 collects three, which exceeds the bound of two.
    let mut t = ExtBuilder::default().max_backing_per_target(2).build_unchecked();
    t.roll_to(25);
    assert!(t.ensure_full_snapshot());

    let paged_supports: Vec<Supports> = vec![
        // page 0: the self-voting targets.
        vec![(40, Support { total: 40, voters: vec![(40, 40)] })],
        // page 1.
        vec![(40, Support { total: 10, voters: vec![(5, 10)] })],
        // page 2, the msp.
        vec![(40, Support { total: 10, voters: vec![(2, 10)] })],
    ];
    let paged = raw_paged_from_supports(&t.snapshot, &paged_supports, 0).unwrap();
    assert!(t.load_solution_for_verification(paged));
    t.roll_to(28);
    assert_eq!(t.pallet.status(), Status::Nothing);
    assert_eq!(
        t.verifier_events(),
        vec![
            Event::Verified(2, 1),
            Event::Verified(1, 1),
            Event::Verified(0, 1),
            Event::VerificationFailed(0, FeasibilityError::TooManyBackings),
        ]
    );
    assert!(t.pallet.queued_solution().is_none());
    assert!(t.sanity_checks());
}

#[test]
fn force_path_outside_emergency_is_rejected() {
    let mut t = ExtBuilder::default().build_unchecked();
    t.roll_to(25);
    let pages: Vec<Supports> = vec![Vec::new(), Vec::new(), Vec::new()];
    let r = t.pallet.set_emergency_solution(Phase::Signed, pages, score(1, 1, 1));
    assert_eq!(r, Err(Error::CallNotAllowed));
    // the valid buffer is unchanged.
    assert!(t.pallet.queued_solution().is_none());
    assert!(t.pallet.get_queued_solution_page(0).is_none());
    assert!(t.sanity_checks());
}

#[test]
fn force_path_wrong_page_count_is_rejected() {
    let mut t = ExtBuilder::default().build_unchecked();
    let pages: Vec<Supports> = vec![Vec::new(), Vec::new()];
    let r = t.pallet.set_emergency_solution(Phase::Emergency, pages, score(1, 1, 1));
    assert_eq!(r, Err(Error::WrongPageCount));
    assert!(t.pallet.queued_solution().is_none());
}

#[test]
fn force_path_in_emergency_installs_the_solution() {
    let mut t = ExtBuilder::default().build_unchecked();
    let pages: Vec<Supports> = vec![
        vec![(10, Support { total: 7, voters: vec![(1, 7)] })],
        Vec::new(),
        Vec::new(),
    ];
    let r = t.pallet.set_emergency_solution(Phase::Emergency, pages, score(7, 7, 49));
    assert_eq!(r, Ok(()));
    assert_eq!(t.pallet.queued_solution(), Some(score(7, 7, 49)));
    assert_eq!(t.pallet.get_queued_solution_page(0).unwrap().len(), 1);
    assert_eq!(t.pallet.get_queued_solution_page(1).unwrap().len(), 0);
}

#[test]
fn force_path_rejects_oversized_supports() {
    let mut t = ExtBuilder::default().max_backing_per_target(1).build_unchecked();
    let pages: Vec<Supports> = vec![
        vec![(10, Support { total: 2, voters: vec![(1, 1), (2, 1)] })],
        Vec::new(),
        Vec::new(),
    ];
    let r = t.pallet.set_emergency_solution(Phase::Emergency, pages, score(2, 2, 4));
    assert_eq!(r, Err(Error::WrongSupportBounds));
    assert!(t.pallet.queued_solution().is_none());
}

#[test]
fn score_gate_rejects_low_claims() {
    let mut t = ExtBuilder::default().build_unchecked();
    // with nothing queued and no floor, anything passes.
    assert!(t.pallet.ensure_score_quality(score(1, 1, 1)).is_ok());

    // a floor rejects what does not clear it.
    t.pallet.set_minimum_untrusted_score(Some(score(100, 100, 100)));
    assert_eq!(
        t.pallet.ensure_score_quality(score(50, 200, 1)),
        Err(FeasibilityError::ScoreTooLow)
    );
    assert!(t.pallet.ensure_score_quality(score(101, 1, 1)).is_ok());

    // loading a solution with a failing claim changes nothing.
    t.roll_to(25);
    let low = fake_unsigned_solution(score(50, 200, 1));
    assert!(!t.load_solution_for_verification(low));
    assert_eq!(t.pallet.status(), Status::Nothing);
    assert!(t.sanity_checks());
}

#[test]
fn score_gate_requires_improvement_over_queued() {
    let mut t = ExtBuilder::default().pages(1).build_unchecked();
    t.roll_to(25);
    let solution = t.mine_full_solution().unwrap();
    assert!(t.load_solution_for_verification(solution));
    t.roll_to(26);
    assert_eq!(t.pallet.queued_solution(), Some(score(15, 40, 850)));

    // the same score is no improvement.
    assert_eq!(
        t.pallet.ensure_score_quality(score(15, 40, 850)),
        Err(FeasibilityError::ScoreTooLow)
    );
    // a worse one neither.
    assert_eq!(
        t.pallet.ensure_score_quality(score(10, 20, 200)),
        Err(FeasibilityError::ScoreTooLow)
    );
    // a better one passes.
    assert!(t.pallet.ensure_score_quality(score(16, 40, 850)).is_ok());
    // ties on the minimal stake are broken by the total, then by a lower
    // sum of squares.
    assert!(t.pallet.ensure_score_quality(score(15, 41, 850)).is_ok());
    assert!(t.pallet.ensure_score_quality(score(15, 40, 849)).is_ok());
}

#[test]
fn start_while_ongoing_is_rejected() {
    let mut t = ExtBuilder::default().build_unchecked();
    t.roll_to(25);
    let solution = t.mine_full_solution().unwrap();
    assert!(t.load_solution_for_verification(solution));
    assert_eq!(t.pallet.status(), Status::Ongoing(2));
    assert_eq!(t.pallet.start(), Err(Error::CallNotAllowed));
    assert_eq!(t.pallet.status(), Status::Ongoing(2));
}

#[test]
fn kill_wipes_everything() {
    let mut t = ExtBuilder::default().build_unchecked();
    t.roll_to(25);
    let solution = t.mine_full_solution().unwrap();
    assert!(t.load_solution_for_verification(solution));
    t.roll_to(28);
    assert!(t.pallet.queued_solution().is_some());

    t.pallet.kill();
    assert_eq!(t.pallet.status(), Status::Nothing);
    assert!(t.pallet.queued_solution().is_none());
    assert!(t.pallet.get_queued_solution_page(0).is_none());
    assert!(t.sanity_checks());
}

#[test]
fn force_set_single_page_verified_solution_works() {
    let mut t = ExtBuilder::default().pages(1).build_unchecked();
    let supports: Supports = vec![(10, Support { total: 9, voters: vec![(1, 9)] })];
    t.pallet.force_set_single_page_verified_solution(supports, score(9, 9, 81));
    assert_eq!(t.pallet.queued_solution(), Some(score(9, 9, 81)));
    assert_eq!(t.pallet.get_queued_solution_page(0).unwrap().len(), 1);
    assert!(t.sanity_checks());
}

#[test]
fn low_score_solution_round_trips() {
    // a feasible solution with a deliberately bad score still verifies,
    // and the recomputed score equals the claim exactly.
    let mut t = ExtBuilder::default().pages(1).build_unchecked();
    t.roll_to(25);
    let paged = raw_paged_solution_low_score();
    assert!(t.load_solution_for_verification(paged));
    t.roll_to(26);
    assert_eq!(t.pallet.status(), Status::Nothing);
    assert_eq!(
        t.verifier_events(),
        vec![Event::Verified(0, 2), Event::Queued(score(10, 20, 200), None)]
    );
    assert_eq!(t.signed_results(), vec![VerificationResult::Valid]);
    assert!(t.sanity_checks());
}

#[test]
fn weights_are_normalized_onto_the_stake() {
    // a crafted page whose rational weights do not sum to one: the
    // verifier scales the staked weights so the voter distributes exactly
    // its stake of 10, here five and five.
    let mut t = ExtBuilder::default().pages(1).build_unchecked();
    t.roll_to(25);
    let page = SolutionPage { votes: vec![(0, vec![(0, 30000), (1, 20000)])] };
    let sups = t.pallet.feasibility_check_page(&t.snapshot, &page, 0).unwrap();
    assert_eq!(sups.len(), 2);
    assert_eq!(sups[0].0, 10);
    assert_eq!(sups[0].1.total, 5);
    assert_eq!(sups[0].1.voters, vec![(1, 5)]);
    assert_eq!(sups[1].0, 20);
    assert_eq!(sups[1].1.total, 5);
    assert_eq!(sups[1].1.voters, vec![(1, 5)]);
}

#[test]
fn final_score_without_backings_is_incomplete() {
    // recomputing the final score before any page was assembled is the
    // internal bug guard.
    let t = ExtBuilder::default().build_unchecked();
    assert_eq!(
        t.pallet.queued.final_score(12),
        Err(FeasibilityError::Incomplete)
    );
}

#[test]
fn empty_distribution_fails_normalization() {
    // a crafted page whose voter distributes to no target at all cannot be
    // normalized onto the voter's stake.
    let mut t = ExtBuilder::default().pages(1).build_unchecked();
    t.roll_to(25);
    let page = SolutionPage { votes: vec![(0, vec![])] };
    assert!(matches!(
        t.pallet.feasibility_check_page(&t.snapshot, &page, 0),
        Err(FeasibilityError::NposElection(NposError::NormalizationFailed))
    ));
}

#[test]
fn evaluate_backings_exact_values() {
    let agg = vec![
        (10u64, PartialBackings { total: 15, backers: 2 }),
        (40u64, PartialBackings { total: 25, backers: 3 }),
    ];
    assert_eq!(evaluate_backings(&agg), score(15, 40, 850));

    let empty: Vec<(u64, PartialBackings)> = Vec::new();
    assert_eq!(evaluate_backings(&empty), score(0, 0, 0));

    // the sums saturate instead of wrapping.
    let big = vec![
        (1u64, PartialBackings { total: u128::MAX, backers: 1 }),
        (2u64, PartialBackings { total: 3, backers: 1 }),
    ];
    assert_eq!(evaluate_backings(&big), score(3, u128::MAX, u128::MAX));
}

#[test]
fn score_ordering_is_lexicographic() {
    // higher minimal stake wins.
    assert!(is_score_better(score(2, 1, 1), score(1, 9, 9), 0));
    assert!(!is_score_better(score(1, 9, 9), score(2, 1, 1), 0));
    // ties: higher total stake wins.
    assert!(is_score_better(score(1, 2, 1), score(1, 1, 1), 0));
    // further ties: lower sum of squares wins.
    assert!(is_score_better(score(1, 1, 1), score(1, 1, 2), 0));
    // equal scores are no improvement.
    assert!(!is_score_better(score(1, 1, 1), score(1, 1, 1), 0));

    // a threshold of ten percent applies to the minimal stake.
    let ten_percent = 100_000_000;
    assert!(!is_score_better(score(105, 1, 1), score(100, 1, 1), ten_percent));
    assert!(is_score_better(score(111, 1, 1), score(100, 1, 1), ten_percent));
}

#[test]
fn harness_reports_balances_and_witness() {
    let mut t = ExtBuilder::default().build_unchecked();
    assert_eq!(t.balances(99), (100, 0));
    assert_eq!(t.balances(999), (100, 0));
    assert_eq!(t.balances(1), (0, 0));

    t.roll_to(25);
    let w = t.witness();
    assert_eq!(w.voters, 12);
    assert_eq!(w.targets, 4);
    assert!(t.ensure_voters(3, 12));
    assert!(t.ensure_targets(1, 4));
    assert!(t.sanity_checks());
}

#[test]
fn rolling_to_phases_works() {
    let mut t = ExtBuilder::default().build_unchecked();
    t.roll_to_snapshot_created();
    assert_eq!(t.current_phase(), Phase::Snapshot(0));
    assert!(t.ensure_full_snapshot());
    t.roll_to_unsigned_open();
    assert_eq!(t.current_phase(), Phase::Unsigned);
    assert_eq!(t.block, 25);
    assert!(t.sanity_checks());
}
