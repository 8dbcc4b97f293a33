//! End-to-end verification of mined solutions.

use multi_block::mock::ExtBuilder;
use multi_block::pallet::Event;
use multi_block::score::ElectionScore;
use multi_block::types::{Status, VerificationResult};

#[test]
fn basic_single_verification_works() {
    let mut t = ExtBuilder::default().pages(1).build_unchecked();
    // load a solution after the snapshot has been created.
    t.roll_to(25);
    assert!(t.ensure_full_snapshot());

    let solution = t.mine_full_solution().unwrap();
    assert!(t.load_solution_for_verification(solution));

    // now let it verify.
    t.roll_to(26);

    // it is done after just one block.
    assert_eq!(t.pallet.status(), Status::Nothing);
    assert_eq!(
        t.verifier_events(),
        vec![
            Event::Verified(0, 2),
            Event::Queued(
                ElectionScore { minimal_stake: 15, sum_stake: 40, sum_stake_squared: 850 },
                None,
            ),
        ]
    );
    assert_eq!(t.signed_results(), vec![VerificationResult::Valid]);
    assert!(t.sanity_checks());
}

#[test]
fn basic_multi_verification_works() {
    let mut t = ExtBuilder::default().pages(3).build_unchecked();
    // load a solution after the snapshot has been created.
    t.roll_to(25);
    assert!(t.ensure_full_snapshot());

    let solution = t.mine_full_solution().unwrap();

    assert!(t.load_solution_for_verification(solution));
    assert_eq!(t.pallet.status(), Status::Ongoing(2));
    assert_eq!(t.pallet.queued.valid_iter().len(), 0);

    // now let it verify.
    t.roll_to(26);
    assert_eq!(t.pallet.status(), Status::Ongoing(1));
    assert_eq!(t.verifier_events(), vec![Event::Verified(2, 2)]);
    // 1 page verified, stored as invalid.
    assert_eq!(t.pallet.queued.invalid_iter().len(), 1);

    t.roll_to(27);
    assert_eq!(t.pallet.status(), Status::Ongoing(0));
    assert_eq!(t.verifier_events(), vec![Event::Verified(2, 2), Event::Verified(1, 2)]);
    // 2 pages verified, stored as invalid.
    assert_eq!(t.pallet.queued.invalid_iter().len(), 2);

    // nothing is queued yet.
    assert_eq!(t.signed_results(), vec![]);
    assert_eq!(t.pallet.queued.valid_iter().len(), 0);
    assert!(t.pallet.queued_solution().is_none());

    // last block.
    t.roll_to(28);
    assert_eq!(t.pallet.status(), Status::Nothing);
    assert_eq!(
        t.verifier_events(),
        vec![
            Event::Verified(2, 2),
            Event::Verified(1, 2),
            Event::Verified(0, 2),
            Event::Queued(
                ElectionScore { minimal_stake: 55, sum_stake: 130, sum_stake_squared: 8650 },
                None,
            ),
        ]
    );
    assert_eq!(t.signed_results(), vec![VerificationResult::Valid]);

    // a solution has been queued.
    assert_eq!(t.pallet.queued.valid_iter().len(), 3);
    assert!(t.pallet.queued_solution().is_some());
    assert!(t.sanity_checks());
}

#[test]
fn basic_multi_verification_partial() {
    let mut t = ExtBuilder::default().pages(3).build_unchecked();
    // load a solution after the snapshot has been created.
    t.roll_to(25);
    assert!(t.ensure_full_snapshot());

    let solution = t.mine_solution(2).unwrap();

    assert!(t.load_solution_for_verification(solution));
    assert_eq!(t.pallet.status(), Status::Ongoing(2));
    assert_eq!(t.pallet.queued.valid_iter().len(), 0);

    // now let it verify.
    t.roll_to(26);
    assert_eq!(t.pallet.status(), Status::Ongoing(1));
    assert_eq!(t.verifier_events(), vec![Event::Verified(2, 2)]);
    // 1 page verified, stored as invalid.
    assert_eq!(t.pallet.queued.invalid_iter().len(), 1);

    t.roll_to(27);
    assert_eq!(t.pallet.status(), Status::Ongoing(0));
    assert_eq!(t.verifier_events(), vec![Event::Verified(2, 2), Event::Verified(1, 2)]);
    // 2 pages verified, stored as invalid.
    assert_eq!(t.pallet.queued.invalid_iter().len(), 2);

    // nothing is queued yet.
    assert_eq!(t.signed_results(), vec![]);
    assert_eq!(t.pallet.queued.valid_iter().len(), 0);
    assert!(t.pallet.queued_solution().is_none());

    t.roll_to(28);
    assert_eq!(t.pallet.status(), Status::Nothing);

    assert_eq!(
        t.verifier_events(),
        vec![
            Event::Verified(2, 2),
            Event::Verified(1, 2),
            // this is a partial solution, no one in this page (lsp).
            Event::Verified(0, 0),
            Event::Queued(
                ElectionScore { minimal_stake: 30, sum_stake: 70, sum_stake_squared: 2500 },
                None,
            ),
        ]
    );

    // a solution has been queued.
    assert_eq!(t.signed_results(), vec![VerificationResult::Valid]);
    assert_eq!(t.pallet.queued.valid_iter().len(), 3);
    assert!(t.pallet.queued_solution().is_some());

    // page 0 is empty..
    assert_eq!(t.pallet.queued.get_valid_page(0).unwrap().len(), 0);
    // .. the other two are not.
    assert_eq!(t.pallet.queued.get_valid_page(1).unwrap().len(), 2);
    assert_eq!(t.pallet.queued.get_valid_page(2).unwrap().len(), 2);
    assert!(t.sanity_checks());
}
