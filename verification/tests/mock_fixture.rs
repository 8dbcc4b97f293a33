//! The fixture's own staking data source.

use multi_block::mock::ExtBuilder;

#[test]
fn targets() {
    let mut t = ExtBuilder::default().build_unchecked();
    assert_eq!(t.staking.targets.len(), 4);

    // any non-zero page is an error.
    assert!(t.staking.targets(None, 1).is_err());
    assert!(t.staking.targets(None, 2).is_err());

    // but 0 is fine.
    assert_eq!(t.staking.targets(None, 0).unwrap().len(), 4);

    // fetching fewer targets is an error.
    assert!(t.staking.targets(Some(2), 0).is_err());

    // more targets is fine.
    assert!(t.staking.targets(Some(4), 0).is_ok());
    assert!(t.staking.targets(Some(5), 0).is_ok());
    assert!(t.sanity_checks());
}

#[test]
fn multi_page_votes() {
    let mut t = ExtBuilder::default().build_unchecked();
    assert_eq!(t.staking.voters(None, 0).unwrap().len(), 12);
    assert!(t.staking.last_iterated_voter_index.is_none());

    assert_eq!(
        t.staking
            .voters(Some(4), 0)
            .unwrap()
            .into_iter()
            .map(|(x, _, _)| x)
            .collect::<Vec<_>>(),
        vec![1, 2, 3, 4],
    );
    assert!(t.staking.last_iterated_voter_index.is_none());

    assert_eq!(
        t.staking
            .voters(Some(4), 2)
            .unwrap()
            .into_iter()
            .map(|(x, _, _)| x)
            .collect::<Vec<_>>(),
        vec![1, 2, 3, 4],
    );
    assert_eq!(t.staking.last_iterated_voter_index.unwrap(), 4);

    assert_eq!(
        t.staking
            .voters(Some(4), 1)
            .unwrap()
            .into_iter()
            .map(|(x, _, _)| x)
            .collect::<Vec<_>>(),
        vec![5, 6, 7, 8],
    );
    assert_eq!(t.staking.last_iterated_voter_index.unwrap(), 8);

    assert_eq!(
        t.staking
            .voters(Some(4), 0)
            .unwrap()
            .into_iter()
            .map(|(x, _, _)| x)
            .collect::<Vec<_>>(),
        vec![10, 20, 30, 40],
    );
    assert!(t.staking.last_iterated_voter_index.is_none());
    assert!(t.sanity_checks());
}
