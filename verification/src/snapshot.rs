//! The frozen electorate one round of verification works against.
//!
//! A snapshot has a single global page of targets, one page of voters per
//! round page, and the desired winner count.  Any of the three parts can be
//! absent; the feasibility check reports absence as `SnapshotUnavailable`.

use vstd::prelude::*;

use crate::types::{AccountId, PageIndex, VoteWeight, Voter};

verus! {

/// The mathematical value of one voter.
pub type VoterV = (AccountId, VoteWeight, Seq<AccountId>);

/// The mathematical value of a snapshot.
pub ghost struct SnapshotV {
    /// The global target list, if present.
    pub targets: Option<Seq<AccountId>>,
    /// Per page, the voters of that page, if present.
    pub voter_pages: Seq<Option<Seq<VoterV>>>,
    /// The number of winners the election wants, if present.
    pub desired_targets: Option<u32>,
}

/// The mathematical value of one voter page.
pub open spec fn voters_view(v: Seq<Voter>) -> Seq<VoterV> {
    v.map_values(|w: Voter| (w.0, w.1, w.2@))
}

/// The number of voters across a sequence of optional voter pages; an
/// absent page counts as zero.
pub open spec fn pages_voter_count(pages: Seq<Option<Seq<VoterV>>>) -> int
    decreases pages.len(),
{
    if pages.len() == 0 {
        0
    } else {
        pages_voter_count(pages.drop_last()) + (match pages.last() {
            Some(v) => v.len() as int,
            None => 0,
        })
    }
}

/// The paged snapshot of the electorate.
pub struct Snapshot {
    /// The global target list, if present.
    pub targets: Option<Vec<AccountId>>,
    /// Per page, the voters of that page, if present.
    pub voter_pages: Vec<Option<Vec<Voter>>>,
    /// The number of winners the election wants, if present.
    pub desired_targets: Option<u32>,
}

impl View for Snapshot {
    type V = SnapshotV;

    open spec fn view(&self) -> SnapshotV {
        SnapshotV {
            targets: match self.targets {
                Some(t) => Some(t@),
                None => None,
            },
            voter_pages: self.voter_pages@.map_values(
                |o: Option<Vec<Voter>>|
                    match o {
                        Some(v) => Some(voters_view(v@)),
                        None => None,
                    },
            ),
            desired_targets: self.desired_targets,
        }
    }
}

impl Snapshot {
    /// An entirely absent snapshot covering `pages` voter pages.
    pub fn new(pages: usize) -> (r: Snapshot)
        ensures
            r@.targets is None,
            r@.desired_targets is None,
            r@.voter_pages.len() == pages,
            forall|p: int| 0 <= p < pages ==> (#[trigger] r@.voter_pages[p]) is None,
    {
        let mut voter_pages: Vec<Option<Vec<Voter>>> = Vec::new();
        let mut i: usize = 0;
        while i < pages
            invariant
                i <= pages,
                voter_pages@.len() == i,
                forall|p: int| 0 <= p < i ==> (#[trigger] voter_pages@[p]) is None,
            decreases pages - i,
        {
            voter_pages.push(None);
            i = i + 1;
        }
        Snapshot { targets: None, voter_pages, desired_targets: None }
    }

    /// The number of voter pages the snapshot covers.
    pub fn pages(&self) -> (r: usize)
        ensures
            r == self@.voter_pages.len(),
    {
        self.voter_pages.len()
    }

    /// Install the global target list.
    pub fn set_targets(&mut self, targets: Vec<AccountId>)
        ensures
            final(self)@ == (SnapshotV { targets: Some(targets@), ..old(self)@ }),
    {
        self.targets = Some(targets);
        proof {
            assert(self@.voter_pages =~= old(self)@.voter_pages);
            assert(self@ == (SnapshotV { targets: Some(self.targets.unwrap()@), ..old(self)@ }));
        }
    }

    /// Install one voter page.
    pub fn set_voter_page(&mut self, page: PageIndex, voters: Vec<Voter>)
        requires
            (page as int) < old(self)@.voter_pages.len(),
        ensures
            final(self)@ == (SnapshotV {
                voter_pages: old(self)@.voter_pages.update(
                    page as int,
                    Some(voters_view(voters@)),
                ),
                ..old(self)@
            }),
    {
        let ghost o = self@;
        self.voter_pages.set(page as usize, Some(voters));
        proof {
            assert(self@.voter_pages =~= o.voter_pages.update(
                page as int,
                self@.voter_pages[page as int],
            ));
        }
    }

    /// Install the desired winner count.
    pub fn set_desired_targets(&mut self, desired: u32)
        ensures
            final(self)@ == (SnapshotV { desired_targets: Some(desired), ..old(self)@ }),
    {
        self.desired_targets = Some(desired);
        proof {
            assert(self@.voter_pages =~= old(self)@.voter_pages);
        }
    }

    /// Drop one voter page, as if it had never been created.
    pub fn remove_voter_page(&mut self, page: PageIndex)
        requires
            (page as int) < old(self)@.voter_pages.len(),
        ensures
            final(self)@ == (SnapshotV {
                voter_pages: old(self)@.voter_pages.update(page as int, None),
                ..old(self)@
            }),
    {
        let ghost o = self@;
        self.voter_pages.set(page as usize, None);
        proof {
            assert(self@.voter_pages =~= o.voter_pages.update(page as int, None));
        }
    }

    /// Drop the target page.  There is only one target page, so any `page`
    /// argument drops the whole list.
    pub fn remove_target_page(&mut self, _page: PageIndex)
        ensures
            final(self)@ == (SnapshotV { targets: None, ..old(self)@ }),
    {
        self.targets = None;
        proof {
            assert(self@.voter_pages =~= old(self)@.voter_pages);
        }
    }

    /// Drop the desired winner count.
    pub fn kill_desired_targets(&mut self)
        ensures
            final(self)@ == (SnapshotV { desired_targets: None, ..old(self)@ }),
    {
        self.desired_targets = None;
        proof {
            assert(self@.voter_pages =~= old(self)@.voter_pages);
        }
    }

    /// Whether targets, desired count, and every voter page are present.
    pub fn is_full(&self) -> (r: bool)
        ensures
            r == (self@.targets is Some && self@.desired_targets is Some && forall|p: int|
                0 <= p < self@.voter_pages.len() ==> (#[trigger] self@.voter_pages[p]) is Some),
    {
        if self.targets.is_none() {
            return false;
        }
        if self.desired_targets.is_none() {
            return false;
        }
        let mut p: usize = 0;
        while p < self.voter_pages.len()
            invariant
                p <= self.voter_pages@.len(),
                forall|i: int| 0 <= i < p ==> (#[trigger] self@.voter_pages[i]) is Some,
            decreases self.voter_pages.len() - p,
        {
            match &self.voter_pages[p] {
                None => {
                    proof {
                        assert(self@.voter_pages[p as int] is None);
                    }
                    return false;
                },
                Some(_) => {
                    proof {
                        assert(self@.voter_pages[p as int] is Some);
                    }
                },
            }
            p = p + 1;
        }
        true
    }

    /// How many voter pages are present.
    pub fn voter_pages_present(&self) -> (r: usize)
        ensures
            r == crate::queued::count_some(self@.voter_pages),
            r <= self@.voter_pages.len(),
    {
        let mut p: usize = 0;
        let mut n: usize = 0;
        while p < self.voter_pages.len()
            invariant
                p <= self.voter_pages@.len(),
                n <= p,
                n == crate::queued::count_some(self@.voter_pages.subrange(0, p as int)),
            decreases self.voter_pages.len() - p,
        {
            proof {
                assert(self@.voter_pages.subrange(0, p + 1).drop_last() =~= self@.voter_pages
                    .subrange(0, p as int));
                assert(self@.voter_pages.subrange(0, p + 1).last() == self@.voter_pages[p as int]);
            }
            match &self.voter_pages[p] {
                Some(_) => {
                    proof {
                        assert(self@.voter_pages[p as int] is Some);
                    }
                    n = n + 1;
                },
                None => {
                    proof {
                        assert(self@.voter_pages[p as int] is None);
                    }
                },
            }
            p = p + 1;
        }
        proof {
            assert(self@.voter_pages.subrange(0, self@.voter_pages.len() as int) =~= self@
                .voter_pages);
            crate::queued::lemma_count_some_le(self@.voter_pages);
        }
        n
    }

    /// The total number of voters across all present pages, saturating at
    /// the machine's limit.
    pub fn voters_flat_count(&self) -> (r: usize)
        ensures
            r as int == ({
                let c = pages_voter_count(self@.voter_pages);
                if c > usize::MAX {
                    usize::MAX as int
                } else {
                    c
                }
            }),
    {
        let mut p: usize = 0;
        let mut n: usize = 0;
        while p < self.voter_pages.len()
            invariant
                p <= self.voter_pages@.len(),
                n as int == ({
                    let c = pages_voter_count(self@.voter_pages.subrange(0, p as int));
                    if c > usize::MAX {
                        usize::MAX as int
                    } else {
                        c
                    }
                }),
            decreases self.voter_pages.len() - p,
        {
            proof {
                assert(self@.voter_pages.subrange(0, p + 1).drop_last() =~= self@.voter_pages
                    .subrange(0, p as int));
                assert(self@.voter_pages.subrange(0, p + 1).last() == self@.voter_pages[p as int]);
            }
            match &self.voter_pages[p] {
                Some(v) => {
                    proof {
                        assert(self@.voter_pages[p as int] == Some(voters_view(v@)));
                        assert(voters_view(v@).len() == v@.len());
                    }
                    n = n.saturating_add(v.len());
                },
                None => {
                    proof {
                        assert(self@.voter_pages[p as int] is None);
                    }
                },
            }
            p = p + 1;
        }
        proof {
            assert(self@.voter_pages.subrange(0, self@.voter_pages.len() as int) =~= self@
                .voter_pages);
        }
        n
    }

    /// The number of targets, zero when the target list is absent.
    pub fn targets_len(&self) -> (r: usize)
        ensures
            match self@.targets {
                Some(t) => r == t.len(),
                None => r == 0,
            },
    {
        match &self.targets {
            Some(t) => t.len(),
            None => 0,
        }
    }
}

} // verus!
