//! Per-page feasibility checks against the fixture snapshot.

use multi_block::mock::{raw_paged_from_supports, solution_from_supports, ExtBuilder};
use multi_block::pallet::Event;
use multi_block::score::ElectionScore;
use multi_block::solution::PagedRawSolution;
use multi_block::types::{FeasibilityError, NposError, Status, Support, Supports, VerificationResult};

#[test]
fn missing_snapshot() {
    let mut t = ExtBuilder::default().build_unchecked();
    t.roll_to_snapshot_created();
    let paged = t.mine_full_solution().unwrap();
    // ..remove the only relevant page of the voter snapshot.
    t.snapshot.remove_voter_page(0);
    assert!(matches!(
        t.pallet.feasibility_check_page(&t.snapshot, &paged.solution_pages[0], 0),
        Err(FeasibilityError::SnapshotUnavailable)
    ));

    let mut t = ExtBuilder::default().pages(2).build_unchecked();
    t.roll_to_snapshot_created();
    let paged = t.mine_full_solution().unwrap();
    // ..remove just one of the pages of voter snapshot that is relevant.
    t.snapshot.remove_voter_page(0);
    assert!(matches!(
        t.pallet.feasibility_check_page(&t.snapshot, &paged.solution_pages[0], 0),
        Err(FeasibilityError::SnapshotUnavailable)
    ));

    let mut t = ExtBuilder::default().pages(2).build_unchecked();
    t.roll_to_snapshot_created();
    let paged = t.mine_full_solution().unwrap();
    // ..removing this page is not important.
    t.snapshot.remove_voter_page(1);
    assert!(t
        .pallet
        .feasibility_check_page(&t.snapshot, &paged.solution_pages[0], 0)
        .is_ok());

    let mut t = ExtBuilder::default().pages(2).build_unchecked();
    t.roll_to_snapshot_created();
    let paged = t.mine_full_solution().unwrap();
    // the desired winner count missing is also an error.
    t.snapshot.kill_desired_targets();
    assert!(matches!(
        t.pallet.feasibility_check_page(&t.snapshot, &paged.solution_pages[0], 0),
        Err(FeasibilityError::SnapshotUnavailable)
    ));

    let mut t = ExtBuilder::default().pages(2).build_unchecked();
    t.roll_to_snapshot_created();
    t.roll_to(25);
    let paged = t.mine_full_solution().unwrap();
    // the target snapshot missing is also an error.
    t.snapshot.remove_target_page(0);
    assert!(matches!(
        t.pallet.feasibility_check_page(&t.snapshot, &paged.solution_pages[1], 0),
        Err(FeasibilityError::SnapshotUnavailable)
    ));
}

#[test]
fn winner_indices_single_page_must_be_in_bounds() {
    let mut t = ExtBuilder::default().pages(1).desired_targets(2).build_unchecked();
    t.roll_to_snapshot_created();
    let mut paged = t.mine_full_solution().unwrap();
    assert_eq!(t.snapshot.targets.as_ref().unwrap().len(), 4);
    // ------------------------------------^^ valid range is [0..3].

    // Swap all single votes from 3 to 4. There are only 4 targets, so
    // index 4 is invalid.
    for (_, dist) in paged.solution_pages[0].votes.iter_mut() {
        if dist.len() == 1 && dist[0].0 == 3 {
            dist[0].0 += 1;
        }
    }
    assert!(matches!(
        t.pallet.feasibility_check_page(&t.snapshot, &paged.solution_pages[0], 0),
        Err(FeasibilityError::NposElection(NposError::SolutionInvalidIndex))
    ));
    assert!(t.sanity_checks());
}

#[test]
fn voter_indices_per_page_must_be_in_bounds() {
    let mut t = ExtBuilder::default()
        .pages(1)
        .voter_per_page(u32::MAX)
        .desired_targets(2)
        .build_unchecked();
    t.roll_to_snapshot_created();
    let mut paged = t.mine_full_solution().unwrap();

    assert_eq!(t.snapshot.voter_pages[0].as_ref().unwrap().len(), 12);
    // ----------------------------------------------^^ valid range is
    // [0..11] in page 0.

    // Check that there is an index 11 among the single votes, and flip it
    // to 12. There are only 12 voters, so index 12 is invalid.
    let mut count = 0;
    for (v, dist) in paged.solution_pages[0].votes.iter_mut() {
        if dist.len() == 1 && *v == 11 {
            *v = 12;
            count += 1;
        }
    }
    assert!(count > 0);
    assert!(matches!(
        t.pallet.feasibility_check_page(&t.snapshot, &paged.solution_pages[0], 0),
        Err(FeasibilityError::NposElection(NposError::SolutionInvalidIndex))
    ));
    assert!(t.sanity_checks());
}

#[test]
fn voter_must_have_same_targets_as_snapshot() {
    let mut t = ExtBuilder::default()
        .pages(1)
        .voter_per_page(u32::MAX)
        .desired_targets(2)
        .build_unchecked();
    t.roll_to_snapshot_created();
    let mut paged = t.mine_full_solution().unwrap();

    // First, check that voter at index 11 (40) actually voted for target
    // index 3 (40) -- this is a self vote. Then, change the vote to 2 (30).
    let mut count = 0;
    for (v, dist) in paged.solution_pages[0].votes.iter_mut() {
        if *v == 11 && dist.len() == 1 && dist[0].0 == 3 {
            dist[0].0 = 2;
            count += 1;
        }
    }
    assert_eq!(count, 1);
    assert!(matches!(
        t.pallet.feasibility_check_page(&t.snapshot, &paged.solution_pages[0], 0),
        Err(FeasibilityError::InvalidVote)
    ));
    assert!(t.sanity_checks());
}

#[test]
fn desired_targets() {
    let mut t = ExtBuilder::default().max_backing_per_target(2).build_unchecked();
    t.roll_to(25);
    assert!(t.ensure_full_snapshot());

    // a valid solution that has only one winner. We can only detect this
    // in the last page.
    let paged_supports: Vec<Supports> = vec![vec![(
        40,
        Support { total: 20, voters: vec![(2, 10), (3, 10)] },
    )]];
    let paged = raw_paged_from_supports(&t.snapshot, &paged_supports, 0).unwrap();

    // initial state.
    assert_eq!(t.pallet.status(), Status::Nothing);
    assert!(t.signed_results().is_empty());

    assert!(t.load_solution_for_verification(paged));
    assert_eq!(t.pallet.status(), Status::Ongoing(2));

    // now let it verify.
    t.roll_to(26);
    assert_eq!(t.pallet.status(), Status::Ongoing(1));
    t.roll_to(27);
    assert_eq!(t.pallet.status(), Status::Ongoing(0));
    assert!(t.signed_results().is_empty());
    t.roll_to(28);
    assert_eq!(t.pallet.status(), Status::Nothing);

    // ..nothing is queued.
    assert!(t.pallet.queued_solution().is_none());
    // ..and these are our events.
    assert_eq!(
        t.verifier_events(),
        vec![
            Event::Verified(2, 1), // msp has one winner, but no more.
            Event::Verified(1, 0),
            Event::Verified(0, 0),
            Event::VerificationFailed(0, FeasibilityError::WrongWinnerCount),
        ]
    );
    assert_eq!(t.signed_results(), vec![VerificationResult::Invalid]);
    assert!(t.sanity_checks());
}

#[test]
fn score() {
    let mut t = ExtBuilder::default().build_unchecked();
    t.roll_to_snapshot_created();
    let mut paged = t.mine_full_solution().unwrap();

    // just tweak the score.
    paged.score.minimal_stake += 1;
    assert!(t.pallet.queued_solution().is_none());

    assert!(t.load_solution_for_verification(paged));
    t.roll_to_full_verification();

    // nothing is verified.
    assert!(t.pallet.queued_solution().is_none());
    assert_eq!(
        t.verifier_events(),
        vec![
            Event::Verified(2, 2),
            Event::Verified(1, 2),
            Event::Verified(0, 2),
            Event::VerificationFailed(0, FeasibilityError::InvalidScore),
        ]
    );
    assert_eq!(t.signed_results(), vec![VerificationResult::Invalid]);
    assert!(t.sanity_checks());
}

#[test]
fn heuristic_max_backers_per_winner_per_page() {
    let mut t = ExtBuilder::default().max_backing_per_target(2).build_unchecked();
    t.roll_to(25);
    assert!(t.ensure_full_snapshot());

    // these votes are all valid, but some dude has 3 backings in a single
    // page.
    let supports: Supports =
        vec![(40, Support { total: 30, voters: vec![(2, 10), (3, 10), (4, 10)] })];
    // all these voters are in page 2 of the snapshot, the msp!
    let solution = solution_from_supports(&t.snapshot, &supports, 2).unwrap();
    let paged = PagedRawSolution {
        solution_pages: vec![solution],
        score: ElectionScore { minimal_stake: 0, sum_stake: 0, sum_stake_squared: 0 },
        round: 0,
    };
    assert!(t.load_solution_for_verification(paged));
    assert_eq!(t.pallet.status(), Status::Ongoing(2));

    // now let it verify. It should fail on the first page.
    t.roll_to(26);

    assert_eq!(t.pallet.status(), Status::Nothing);
    assert_eq!(
        t.verifier_events(),
        vec![Event::VerificationFailed(2, FeasibilityError::TooManyBackings)]
    );
    assert_eq!(t.signed_results(), vec![VerificationResult::Invalid]);
    assert!(t.sanity_checks());
}

#[test]
fn heuristic_desired_target_check_per_page() {
    let mut t = ExtBuilder::default().desired_targets(2).build_unchecked();
    t.roll_to(25);
    assert!(t.ensure_full_snapshot());

    // all of these votes are valid, but this solution is already
    // presenting 3 winners, while we just want 2.
    let supports: Supports = vec![
        (10, Support { total: 30, voters: vec![(4, 2)] }),
        (20, Support { total: 30, voters: vec![(4, 2)] }),
        (40, Support { total: 30, voters: vec![(4, 6)] }),
    ];
    // all these voters are in page 2 of the snapshot, the msp!
    let solution = solution_from_supports(&t.snapshot, &supports, 2).unwrap();
    let paged = PagedRawSolution {
        solution_pages: vec![solution],
        score: ElectionScore { minimal_stake: 0, sum_stake: 0, sum_stake_squared: 0 },
        round: 0,
    };
    assert!(t.load_solution_for_verification(paged));
    assert_eq!(t.pallet.status(), Status::Ongoing(2));

    // now let it verify. It should fail on the first page.
    t.roll_to(26);

    assert_eq!(t.pallet.status(), Status::Nothing);
    assert_eq!(
        t.verifier_events(),
        vec![Event::VerificationFailed(2, FeasibilityError::WrongWinnerCount)]
    );
    assert_eq!(t.signed_results(), vec![VerificationResult::Invalid]);
    assert!(t.sanity_checks());
}
