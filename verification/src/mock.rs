//! A self-contained fixture runtime for exercising the verifier.
//!
//! The harness owns a staking data source with a small fixed electorate, a
//! snapshot, a verifier, and a solution data provider, and drives them
//! block by block the way a host runtime would: during the snapshot phase
//! one voter page is frozen per block, and every block gives the verifier
//! one tick.

use vstd::prelude::*;

use crate::miner::{mine_paged_solution, MinerError};
use crate::pallet::{p_wf, Config, Event, Pallet, SolutionDataProvider};
use crate::score::{evaluate_backings, ElectionScore};
use crate::snapshot::Snapshot;
use crate::solution::{normalize_exec, PagedRawSolution, SolutionPage};
use crate::types::{
    copy_accounts, AccountId, PageIndex, PartialBackings, Phase, Status, Supports,
    TargetIndex, VerificationResult, VoteWeight, Voter, VoterIndex, RATIO_ONE,
};

verus! {

/// How large the electorate of one round is.
#[derive(Clone, Copy, PartialEq, Eq, Structural, Debug)]
pub struct SolutionOrSnapshotSize {
    /// The number of voters across all snapshot pages.
    pub voters: u32,
    /// The number of targets.
    pub targets: u32,
}

/// The staking data source of the fixture: a mutable electorate served
/// page by page, with a cursor so that consecutive page requests walk the
/// voter list.
pub struct MockStaking {
    /// All targets.
    pub targets: Vec<AccountId>,
    /// All voters, in registration order.
    pub voters: Vec<Voter>,
    /// How many winners the election wants.
    pub desired_targets: u32,
    /// Where the next paged voter request continues, if a paged walk is
    /// in progress.
    pub last_iterated_voter_index: Option<usize>,
    /// The length of one election epoch in blocks.
    pub epoch_length: u64,
}

/// The default fixture targets.
pub fn default_targets() -> (r: Vec<AccountId>)
    ensures
        r@.len() == 4,
{
    let mut t: Vec<AccountId> = Vec::new();
    t.push(10);
    t.push(20);
    t.push(30);
    t.push(40);
    t
}

/// One voter of the fixture.
fn fixture_voter(who: AccountId, stake: VoteWeight, votes: Vec<AccountId>) -> (r: Voter)
    ensures
        r.0 == who,
{
    (who, stake, votes)
}

/// The default fixture voters: eight nominators of stake ten and one
/// self-voting target per target, staking its own identity.
pub fn default_voters() -> (r: Vec<Voter>)
    ensures
        r@.len() == 12,
{
    let mut v: Vec<Voter> = Vec::new();
    let mut t1: Vec<AccountId> = Vec::new();
    t1.push(10);
    t1.push(20);
    v.push(fixture_voter(1, 10, t1));
    let mut t2: Vec<AccountId> = Vec::new();
    t2.push(30);
    t2.push(40);
    v.push(fixture_voter(2, 10, t2));
    let mut t3: Vec<AccountId> = Vec::new();
    t3.push(40);
    v.push(fixture_voter(3, 10, t3));
    let mut t4: Vec<AccountId> = Vec::new();
    t4.push(10);
    t4.push(20);
    t4.push(40);
    v.push(fixture_voter(4, 10, t4));
    let mut t5: Vec<AccountId> = Vec::new();
    t5.push(10);
    t5.push(30);
    t5.push(40);
    v.push(fixture_voter(5, 10, t5));
    let mut t6: Vec<AccountId> = Vec::new();
    t6.push(20);
    t6.push(30);
    t6.push(40);
    v.push(fixture_voter(6, 10, t6));
    let mut t7: Vec<AccountId> = Vec::new();
    t7.push(20);
    t7.push(30);
    v.push(fixture_voter(7, 10, t7));
    let mut t8: Vec<AccountId> = Vec::new();
    t8.push(10);
    v.push(fixture_voter(8, 10, t8));
    let mut s10: Vec<AccountId> = Vec::new();
    s10.push(10);
    v.push(fixture_voter(10, 10, s10));
    let mut s20: Vec<AccountId> = Vec::new();
    s20.push(20);
    v.push(fixture_voter(20, 20, s20));
    let mut s30: Vec<AccountId> = Vec::new();
    s30.push(30);
    v.push(fixture_voter(30, 30, s30));
    let mut s40: Vec<AccountId> = Vec::new();
    s40.push(40);
    v.push(fixture_voter(40, 40, s40));
    v
}

/// Where a paged voter walk continues: at the cursor, clamped to the list.
pub open spec fn voters_cursor_start(cursor: Option<usize>, len: int) -> int {
    match cursor {
        Some(i) => if i > len {
            len
        } else {
            i as int
        },
        None => 0,
    }
}

impl MockStaking {
    /// The staking source with the default fixture electorate.
    pub fn new(desired_targets: u32) -> (r: MockStaking)
        ensures
            r.desired_targets == desired_targets,
    {
        MockStaking {
            targets: default_targets(),
            voters: default_voters(),
            desired_targets,
            last_iterated_voter_index: None,
            epoch_length: 30,
        }
    }

    /// The target page.  Targets have a single page, so any nonzero
    /// `remaining` is an error, and so is a cap below the target count.
    pub fn targets(&self, maybe_max_len: Option<usize>, remaining: PageIndex) -> (r: Result<
        Vec<AccountId>,
        &'static str,
    >)
        ensures
            r matches Ok(t) ==> t@ == self.targets@ && remaining == 0,
            remaining != 0 ==> r is Err,
    {
        if remaining != 0 {
            return Err("targets shall not have more than a single page");
        }
        match maybe_max_len {
            Some(max_len) if self.targets.len() > max_len => {
                return Err("Targets too big");
            },
            _ => {},
        }
        Ok(copy_accounts(&self.targets))
    }

    /// One page of voters: continue from the cursor, take at most
    /// `maybe_max_len`, and leave the cursor behind the taken voters while
    /// more pages remain.
    pub fn voters(&mut self, maybe_max_len: Option<usize>, remaining: PageIndex) -> (r: Result<
        Vec<Voter>,
        &'static str,
    >)
        ensures
            r is Ok,
            ({
                let v0 = old(self).voters@;
                let start = voters_cursor_start(old(self).last_iterated_voter_index, v0.len() as int);
                let avail = v0.len() - start;
                let take = match maybe_max_len {
                    Some(m) => if (m as int) < avail {
                        m as int
                    } else {
                        avail
                    },
                    None => avail,
                };
                let out = r.unwrap();
                &&& out@.len() == take
                &&& forall|k: int| #![trigger out@[k]]
                    0 <= k < take ==> out@[k].0 == v0[start + k].0 && out@[k].1 == v0[start + k].1
                        && out@[k].2@ == v0[start + k].2@
                &&& final(self).voters == old(self).voters
                &&& final(self).targets == old(self).targets
                &&& final(self).desired_targets == old(self).desired_targets
                &&& final(self).epoch_length == old(self).epoch_length
                &&& final(self).last_iterated_voter_index == (if take == 0 {
                    old(self).last_iterated_voter_index
                } else if remaining > 0 {
                    Some((start + take) as usize)
                } else {
                    None
                })
            }),
    {
        let start: usize = match self.last_iterated_voter_index {
            Some(i) => {
                if i > self.voters.len() {
                    self.voters.len()
                } else {
                    i
                }
            },
            None => 0,
        };
        let avail = self.voters.len() - start;
        let take: usize = match maybe_max_len {
            Some(m) => {
                if m < avail {
                    m
                } else {
                    avail
                }
            },
            None => avail,
        };
        let n = self.voters.len();
        let mut out: Vec<Voter> = Vec::new();
        let mut i: usize = 0;
        while i < take
            invariant
                n == self.voters@.len(),
                start + take <= n,
                i <= take,
                out@.len() == i,
                forall|k: int| #![trigger out@[k]]
                    0 <= k < i ==> out@[k].0 == self.voters@[start + k].0 && out@[k].1
                        == self.voters@[start + k].1 && out@[k].2@ == self.voters@[start + k].2@,
            decreases take - i,
        {
            let ghost out0 = out@;
            let src = &self.voters[start + i];
            out.push((src.0, src.1, copy_accounts(&src.2)));
            proof {
                assert forall|k: int| #![trigger out@[k]] 0 <= k < i + 1 implies out@[k].0
                    == self.voters@[start + k].0 && out@[k].1 == self.voters@[start + k].1
                    && out@[k].2@ == self.voters@[start + k].2@ by {
                    if k < i {
                        assert(out@[k] == out0[k]);
                        assert(out0[k].2@ == self.voters@[start + k].2@);
                    }
                }
            }
            i = i + 1;
        }
        if out.len() == 0 {
            return Ok(out);
        }
        if remaining > 0 {
            self.last_iterated_voter_index = Some(start + take);
        } else {
            self.last_iterated_voter_index = None;
        }
        Ok(out)
    }

    /// How many winners the election wants.
    pub fn desired_targets(&self) -> (r: Result<u32, &'static str>)
        ensures
            r == Ok::<u32, &'static str>(self.desired_targets),
    {
        Ok(self.desired_targets)
    }

    /// The block of the next election.
    pub fn next_election_prediction(&self, now: u64) -> (r: u64)
        requires
            now <= u64::MAX - self.epoch_length,
            self.epoch_length >= 1,
    {
        now + self.epoch_length - now % self.epoch_length
    }

    /// Replace the whole electorate.
    pub fn put_snapshot(&mut self, voters: Vec<Voter>, targets: Vec<AccountId>)
        ensures
            final(self).voters == voters,
            final(self).targets == targets,
    {
        self.targets = targets;
        self.voters = voters;
    }

    /// Drop the whole electorate.
    pub fn clear(&mut self)
        ensures
            final(self).voters@.len() == 0,
            final(self).targets@.len() == 0,
    {
        self.targets = Vec::new();
        self.voters = Vec::new();
    }

    /// Register one more voter.
    pub fn add_voter(&mut self, voter: AccountId, weight: VoteWeight, targets: Vec<AccountId>)
        ensures
            final(self).voters@.len() == old(self).voters@.len() + 1,
    {
        self.voters.push((voter, weight, targets));
    }

    /// Register one more target, together with its minimal self vote.
    pub fn add_target(&mut self, target: AccountId)
        ensures
            final(self).targets@.len() == old(self).targets@.len() + 1,
    {
        self.targets.push(target);
        let mut self_vote: Vec<AccountId> = Vec::new();
        self_vote.push(target);
        self.voters.push((target, 1, self_vote));
    }
}

/// A builder for the fixture runtime.
pub struct ExtBuilder {
    /// The number of snapshot and solution pages.
    pub pages_value: PageIndex,
    /// How many winners the election wants.
    pub desired_targets_value: u32,
    /// The most backers any winner may have.
    pub max_backers_value: u32,
    /// The lengths of the signed and unsigned phases, in blocks.
    pub signed_phase_value: u64,
    /// See `signed_phase_value`.
    pub unsigned_phase_value: u64,
    /// How many voters one snapshot page may hold.
    pub voter_per_page_value: u32,
    /// The priority of mined transactions; unused by the verifier.
    pub miner_tx_priority_value: u64,
    /// The length bound of mined solutions; unused by the verifier.
    pub miner_length_value: u32,
    /// The improvement threshold of the admission gate, parts per billion.
    pub solution_improvement_threshold_value: u32,
    /// Whether a fallback election runs on chain; unused by the verifier.
    pub onchain_fallback_value: bool,
    /// Voters registered beyond the default fixture.
    pub extra_voters: Vec<Voter>,
}

impl Default for ExtBuilder {
    /// The default fixture configuration: three pages of four voters each,
    /// two desired winners, and a backer bound that never trims.
    fn default() -> (r: ExtBuilder)
        ensures
            r.pages_value == 3,
            r.desired_targets_value == 2,
            r.max_backers_value == 12,
    {
        ExtBuilder {
            pages_value: 3,
            desired_targets_value: 2,
            max_backers_value: 12,
            signed_phase_value: 10,
            unsigned_phase_value: 5,
            voter_per_page_value: 4,
            miner_tx_priority_value: 100,
            miner_length_value: 256,
            solution_improvement_threshold_value: 0,
            onchain_fallback_value: false,
            extra_voters: Vec::new(),
        }
    }
}

impl ExtBuilder {
    /// Set the backer bound.
    pub fn max_backing_per_target(self, c: u32) -> (r: ExtBuilder)
        ensures
            r.max_backers_value == c,
    {
        ExtBuilder { max_backers_value: c, ..self }
    }

    /// Set the mined-transaction priority.
    pub fn miner_tx_priority(self, p: u64) -> (r: ExtBuilder)
        ensures
            r.miner_tx_priority_value == p,
    {
        ExtBuilder { miner_tx_priority_value: p, ..self }
    }

    /// Set the admission-gate improvement threshold.
    pub fn solution_improvement_threshold(self, parts: u32) -> (r: ExtBuilder)
        ensures
            r.solution_improvement_threshold_value == parts,
    {
        ExtBuilder { solution_improvement_threshold_value: parts, ..self }
    }

    /// Set the phase lengths.
    pub fn phases(self, signed: u64, unsigned: u64) -> (r: ExtBuilder)
        ensures
            r.signed_phase_value == signed,
            r.unsigned_phase_value == unsigned,
    {
        ExtBuilder { signed_phase_value: signed, unsigned_phase_value: unsigned, ..self }
    }

    /// Set the page count.
    pub fn pages(self, pages: PageIndex) -> (r: ExtBuilder)
        ensures
            r.pages_value == pages,
    {
        ExtBuilder { pages_value: pages, ..self }
    }

    /// Set the voters-per-page bound.
    pub fn voter_per_page(self, count: u32) -> (r: ExtBuilder)
        ensures
            r.voter_per_page_value == count,
    {
        ExtBuilder { voter_per_page_value: count, ..self }
    }

    /// Set the solution length bound.
    pub fn miner_length(self, len: u32) -> (r: ExtBuilder)
        ensures
            r.miner_length_value == len,
    {
        ExtBuilder { miner_length_value: len, ..self }
    }

    /// Set the desired winner count.
    pub fn desired_targets(self, t: u32) -> (r: ExtBuilder)
        ensures
            r.desired_targets_value == t,
    {
        ExtBuilder { desired_targets_value: t, ..self }
    }

    /// Register one more voter beyond the default fixture.
    pub fn add_voter(self, who: AccountId, stake: VoteWeight, targets: Vec<AccountId>) -> (r:
        ExtBuilder)
        ensures
            r.extra_voters@.len() == self.extra_voters@.len() + 1,
    {
        let mut b = self;
        b.extra_voters.push((who, stake, targets));
        b
    }

    /// Set whether a fallback election runs on chain.
    pub fn onchain_fallback(self, enable: bool) -> (r: ExtBuilder)
        ensures
            r.onchain_fallback_value == enable,
    {
        ExtBuilder { onchain_fallback_value: enable, ..self }
    }

    /// Build the fixture runtime, without any sanity checking afterwards.
    pub fn build_unchecked(self) -> (r: TestExternalities)
        requires
            self.pages_value >= 1,
        ensures
            r.wf(),
            r.pallet@.status == Status::Nothing,
            r.pallet@.queued == crate::queued::empty_queued(self.pages_value as int),
            r.pallet@.minimum_untrusted_score is None,
            r.pallet@.events.len() == 0,
            r.pallet@.config.pages == self.pages_value,
            r.pallet@.config.max_backers_per_winner == self.max_backers_value,
            r.pallet@.config.solution_improvement_threshold
                == self.solution_improvement_threshold_value,
            r.pages == self.pages_value,
            r.block == 0,
    {
        let pages = self.pages_value;
        let mut staking = MockStaking::new(self.desired_targets_value);
        let mut i: usize = 0;
        while i < self.extra_voters.len()
            invariant
                i <= self.extra_voters@.len(),
            decreases self.extra_voters@.len() - i,
        {
            let v = &self.extra_voters[i];
            staking.add_voter(v.0, v.1, copy_accounts(&v.2));
            i = i + 1;
        }
        let max_winners = if staking.targets.len() < self.desired_targets_value as usize {
            staking.targets.len() as u32
        } else {
            self.desired_targets_value
        };
        let config = Config {
            pages,
            max_backers_per_winner: self.max_backers_value,
            max_winners_per_page: max_winners,
            solution_improvement_threshold: self.solution_improvement_threshold_value,
        };
        let mut balances: Vec<(AccountId, u64, u64)> = Vec::new();
        balances.push((99, 100, 0));
        balances.push((999, 100, 0));
        balances.push((9999, 100, 0));
        TestExternalities {
            staking,
            snapshot: Snapshot::new(pages as usize),
            pallet: Pallet::new(config),
            provider: SolutionDataProvider::new(Vec::new(), ElectionScore {
                minimal_stake: 0,
                sum_stake: 0,
                sum_stake_squared: 0,
            }),
            block: 0,
            signed_phase: self.signed_phase_value,
            unsigned_phase: self.unsigned_phase_value,
            pages,
            voter_snapshot_per_block: self.voter_per_page_value,
            target_snapshot_per_block: 8,
            balances,
            round: 0,
        }
    }
}

/// The fixture runtime: every moving part of one verification round, plus
/// the block clock that drives them.
pub struct TestExternalities {
    /// The staking data source.
    pub staking: MockStaking,
    /// The snapshot under construction or in use.
    pub snapshot: Snapshot,
    /// The verifier.
    pub pallet: Pallet,
    /// The solution data provider.
    pub provider: SolutionDataProvider,
    /// The current block.
    pub block: u64,
    /// The length of the signed phase, in blocks.
    pub signed_phase: u64,
    /// The length of the unsigned phase, in blocks.
    pub unsigned_phase: u64,
    /// The page count of the round.
    pub pages: PageIndex,
    /// How many voters one snapshot page may hold.
    pub voter_snapshot_per_block: u32,
    /// How many targets the target page may hold.
    pub target_snapshot_per_block: u32,
    /// Account balances: identity, free, reserved.
    pub balances: Vec<(AccountId, u64, u64)>,
    /// The election round.
    pub round: u32,
}

impl TestExternalities {
    /// Structural soundness of the whole harness.
    pub open spec fn wf(&self) -> bool {
        &&& p_wf(self.pallet@)
        &&& self.pallet@.config.pages == self.pages
        &&& self.snapshot@.voter_pages.len() == self.pages as int
        &&& self.pages >= 1
    }

    /// The phase the harness is in at block `now`.
    pub fn phase_at(&self, now: u64) -> (r: Phase) {
        if now > u64::MAX - self.staking.epoch_length || self.staking.epoch_length == 0 {
            return Phase::Off;
        }
        let next_election = self.staking.next_election_prediction(now);
        let unsigned_open = next_election.saturating_sub(self.unsigned_phase);
        let signed_open = unsigned_open.saturating_sub(self.signed_phase);
        let snapshot_start = signed_open.saturating_sub(self.pages as u64);
        if now >= unsigned_open {
            Phase::Unsigned
        } else if now >= signed_open {
            Phase::Signed
        } else if now >= snapshot_start && signed_open - now >= 1 && signed_open - now
            <= u32::MAX as u64 {
            Phase::Snapshot((signed_open - now - 1) as PageIndex)
        } else {
            Phase::Off
        }
    }

    /// The current phase.
    pub fn current_phase(&self) -> (r: Phase) {
        self.phase_at(self.block)
    }

    /// One block of the surrounding multi-block machinery: freeze one
    /// snapshot page while the snapshot phase runs.
    fn multi_block_on_initialize(&mut self)
        requires
            old(self).wf(),
        ensures
            final(self).wf(),
            final(self).pallet == old(self).pallet,
            final(self).provider == old(self).provider,
            final(self).block == old(self).block,
            final(self).pages == old(self).pages,
    {
        let phase = self.current_phase();
        match phase {
            Phase::Snapshot(k) => {
                if k == self.pages - 1 {
                    // First snapshot block: freeze targets and the desired
                    // winner count.
                    match self.staking.targets(
                        Some(self.target_snapshot_per_block as usize),
                        0,
                    ) {
                        Ok(t) => {
                            self.snapshot.set_targets(t);
                        },
                        Err(_) => {},
                    }
                    match self.staking.desired_targets() {
                        Ok(d) => {
                            self.snapshot.set_desired_targets(d);
                        },
                        Err(_) => {},
                    }
                }
                if (k as usize) < self.snapshot.pages() {
                    match self.staking.voters(Some(self.voter_snapshot_per_block as usize), k) {
                        Ok(v) => {
                            self.snapshot.set_voter_page(k, v);
                        },
                        Err(_) => {},
                    }
                }
            },
            _ => {},
        }
    }

    /// Advance exactly one block: the multi-block machinery first, then
    /// one verifier tick.
    fn step_block(&mut self)
        requires
            old(self).wf(),
            old(self).block < u64::MAX,
        ensures
            final(self).wf(),
            final(self).block == old(self).block + 1,
            final(self).pages == old(self).pages,
            ({
                let st2 = final(self).pallet@.status;
                match old(self).pallet@.status {
                    Status::Nothing => st2 == Status::Nothing,
                    Status::Ongoing(p) => st2 == Status::Nothing || (st2 == Status::Ongoing(
                        (p - 1) as PageIndex,
                    ) && p > 0),
                }
            }),
    {
        self.block = self.block + 1;
        self.multi_block_on_initialize();
        let TestExternalities { pallet, provider, snapshot, .. } = self;
        pallet.do_on_initialize(snapshot, provider);
    }

    /// Advance the block clock to `n`, running every block's work.
    pub fn roll_to(&mut self, n: u64)
        requires
            old(self).wf(),
        ensures
            final(self).wf(),
            final(self).pages == old(self).pages,
            old(self).block <= n ==> final(self).block == n,
    {
        while self.block < n
            invariant
                self.wf(),
                self.block <= n || self.block == old(self).block,
                self.pages == old(self).pages,
            decreases n - self.block,
        {
            self.step_block();
        }
    }

    /// Advance until the snapshot is fully created (`Snapshot(0)`), or
    /// give up after one epoch's worth of blocks.
    pub fn roll_to_snapshot_created(&mut self)
        requires
            old(self).wf(),
        ensures
            final(self).wf(),
            final(self).pages == old(self).pages,
    {
        let mut fuel: u64 = 128;
        while fuel > 0
            invariant
                self.wf(),
                self.pages == old(self).pages,
            decreases fuel,
        {
            match self.current_phase() {
                Phase::Snapshot(k) if k == 0 => {
                    return ;
                },
                _ => {},
            }
            if self.block == u64::MAX {
                return ;
            }
            self.step_block();
            fuel = fuel - 1;
        }
    }

    /// Advance until the unsigned phase opens, or give up after one
    /// epoch's worth of blocks.
    pub fn roll_to_unsigned_open(&mut self)
        requires
            old(self).wf(),
        ensures
            final(self).wf(),
            final(self).pages == old(self).pages,
    {
        let mut fuel: u64 = 128;
        while fuel > 0
            invariant
                self.wf(),
                self.pages == old(self).pages,
            decreases fuel,
        {
            match self.current_phase() {
                Phase::Unsigned => {
                    return ;
                },
                _ => {},
            }
            if self.block == u64::MAX {
                return ;
            }
            self.step_block();
            fuel = fuel - 1;
        }
    }

    /// The free and reserved balance of one account.
    pub fn balances(&self, who: AccountId) -> (r: (u64, u64))
        ensures
            r == balance_of(self.balances@, who),
    {
        proof {
            assert(self.balances@.subrange(0, self.balances@.len() as int) =~= self.balances@);
        }
        let mut i: usize = 0;
        while i < self.balances.len()
            invariant
                i <= self.balances@.len(),
                forall|j: int| 0 <= j < i ==> (#[trigger] self.balances@[j]).0 != who,
                balance_of(self.balances@, who) == balance_of(
                    self.balances@.subrange(i as int, self.balances@.len() as int),
                    who,
                ),
            decreases self.balances@.len() - i,
        {
            proof {
                let rest = self.balances@.subrange(i as int, self.balances@.len() as int);
                assert(rest[0] == self.balances@[i as int]);
                assert(rest.drop_first() =~= self.balances@.subrange(
                    i + 1,
                    self.balances@.len() as int,
                ));
            }
            if self.balances[i].0 == who {
                return (self.balances[i].1, self.balances[i].2);
            }
            i = i + 1;
        }
        proof {
            assert(self.balances@.subrange(
                self.balances@.len() as int,
                self.balances@.len() as int,
            ) =~= Seq::empty());
        }
        (0, 0)
    }

    /// The size of the current snapshot.
    pub fn witness(&self) -> (r: SolutionOrSnapshotSize)
        ensures
            r.voters as int == ({
                let c = crate::snapshot::pages_voter_count(self.snapshot@.voter_pages);
                if c > u32::MAX {
                    u32::MAX as int
                } else {
                    c
                }
            }),
            r.targets as int == ({
                let c = match self.snapshot@.targets {
                    Some(ts) => ts.len() as int,
                    None => 0int,
                };
                if c > u32::MAX {
                    u32::MAX as int
                } else {
                    c
                }
            }),
    {
        let voters = self.snapshot.voters_flat_count();
        let targets = self.snapshot.targets_len();
        SolutionOrSnapshotSize {
            voters: if voters > u32::MAX as usize {
                u32::MAX
            } else {
                voters as u32
            },
            targets: if targets > u32::MAX as usize {
                u32::MAX
            } else {
                targets as u32
            },
        }
    }

    /// Whether the snapshot is fully present.
    pub fn ensure_full_snapshot(&self) -> (r: bool) {
        self.snapshot.is_full()
    }

    /// Whether `count` voters exist across `pages` present voter pages.
    pub fn ensure_voters(&self, pages: PageIndex, count: usize) -> (r: bool)
        ensures
            r ==> crate::queued::count_some(self.snapshot@.voter_pages) == pages as int,
    {
        self.snapshot.voter_pages_present() == pages as usize && self.snapshot.voters_flat_count()
            == count
    }

    /// Whether `count` targets exist across `pages` present target pages.
    pub fn ensure_targets(&self, pages: PageIndex, count: usize) -> (r: bool)
        ensures
            r == ({
                let present: int = if self.snapshot@.targets is Some {
                    1
                } else {
                    0
                };
                let len = match self.snapshot@.targets {
                    Some(ts) => ts.len() as int,
                    None => 0int,
                };
                present == pages as int && len == count as int
            }),
    {
        let present: usize = match &self.snapshot.targets {
            Some(_) => 1,
            None => 0,
        };
        present == pages as usize && self.snapshot.targets_len() == count
    }

    /// Mine a solution over the whole snapshot.
    pub fn mine_full_solution(&self) -> (r: Result<PagedRawSolution, MinerError>) {
        mine_paged_solution(&self.snapshot, self.pages, self.round)
    }

    /// Mine a solution over the `pages` most significant snapshot pages.
    pub fn mine_solution(&self, pages: PageIndex) -> (r: Result<PagedRawSolution, MinerError>) {
        mine_paged_solution(&self.snapshot, pages, self.round)
    }

    /// Every event the verifier has announced, oldest first.
    pub fn verifier_events(&self) -> (r: Vec<Event>)
        ensures
            r@ == self.pallet@.events,
    {
        self.pallet.events()
    }

    /// Every terminal verdict reported to the provider, oldest first.
    pub fn signed_results(&self) -> (r: Vec<VerificationResult>)
        ensures
            r@ == self.provider@.results,
    {
        let mut out: Vec<VerificationResult> = Vec::new();
        let mut i: usize = 0;
        while i < self.provider.results.len()
            invariant
                i <= self.provider.results@.len(),
                out@ == self.provider.results@.subrange(0, i as int),
            decreases self.provider.results@.len() - i,
        {
            out.push(self.provider.results[i]);
            proof {
                assert(out@ =~= self.provider.results@.subrange(0, i + 1));
            }
            i = i + 1;
        }
        proof {
            assert(out@ =~= self.provider.results@);
        }
        out
    }

    /// Load a full paged solution into the provider and start its
    /// verification.  Fails — changing nothing — when the claimed score
    /// does not clear the admission gate, when the solution has more pages
    /// than the round, or when a verification is already ongoing.
    pub fn load_solution_for_verification(&mut self, raw_paged: PagedRawSolution) -> (r: bool)
        requires
            old(self).wf(),
        ensures
            final(self).wf(),
            r == (crate::pallet::score_quality_ok(old(self).pallet@, raw_paged.score)
                && raw_paged.solution_pages@.len() <= old(self).pages as int && old(
                self,
            ).pallet@.status is Nothing),
            !r ==> final(self).pallet@ == old(self).pallet@ && final(self).provider@ == old(
                self,
            ).provider@,
            r ==> ({
                let pages = old(self).pages as int;
                let given = raw_paged.solution_pages@.len() as int;
                let offset = pages - given;
                &&& final(self).pallet@ == (crate::pallet::PalletV {
                    status: Status::Ongoing((old(self).pages - 1) as PageIndex),
                    ..old(self).pallet@
                })
                &&& final(self).provider@.score == raw_paged.score
                &&& final(self).provider@.results == Seq::<VerificationResult>::empty()
                &&& final(self).provider@.pages.len() == pages
                &&& forall|q: int| #![trigger final(self).provider@.pages[q]]
                    0 <= q < pages ==> final(self).provider@.pages[q] == (if q < offset {
                        Seq::<(VoterIndex, Seq<(TargetIndex, u16)>)>::empty()
                    } else {
                        raw_paged.solution_pages@[q - offset]@
                    })
            }),
    {
        match self.pallet.ensure_score_quality(raw_paged.score) {
            Ok(_) => {},
            Err(_) => {
                return false;
            },
        }
        let given = raw_paged.solution_pages.len();
        if given > self.pages as usize {
            return false;
        }
        match self.pallet.status() {
            Status::Ongoing(_) => {
                return false;
            },
            Status::Nothing => {},
        }
        // Entry `i` of the given vector addresses round page
        // `pages - given + i`; lower pages stay empty.
        let offset = self.pages as usize - given;
        let mut padded: Vec<SolutionPage> = Vec::new();
        let mut p: usize = 0;
        while p < offset
            invariant
                p <= offset,
                padded@.len() == p,
                forall|q: int| 0 <= q < p ==> (#[trigger] padded@[q])@.len() == 0,
            decreases offset - p,
        {
            padded.push(SolutionPage::new_empty());
            p = p + 1;
        }
        let pages_in = raw_paged.solution_pages;
        let mut i: usize = 0;
        while i < pages_in.len()
            invariant
                i <= pages_in@.len(),
                padded@.len() == offset + i,
                forall|q: int| 0 <= q < offset ==> (#[trigger] padded@[q])@.len() == 0,
                forall|q: int|
                    offset <= q < offset + i ==> (#[trigger] padded@[q])@ == pages_in@[q - offset]@,
            decreases pages_in@.len() - i,
        {
            let ghost padded0 = padded@;
            padded.push(pages_in[i].duplicate());
            proof {
                assert forall|q: int| offset <= q < offset + i + 1 implies (#[trigger] padded@[q])@
                    == pages_in@[q - offset]@ by {
                    if q < offset + i {
                        assert(padded@[q] == padded0[q]);
                        assert(padded0[q]@ == pages_in@[q - offset]@);
                    }
                }
            }
            i = i + 1;
        }
        self.provider = SolutionDataProvider::new(padded, raw_paged.score);
        proof {
            assert forall|q: int| #![trigger self.provider@.pages[q]] 0 <= q
                < old(self).pages as int implies self.provider@.pages[q] == (if q < offset as int {
                Seq::<(VoterIndex, Seq<(TargetIndex, u16)>)>::empty()
            } else {
                raw_paged.solution_pages@[q - offset]@
            }) by {
                if q < offset as int {
                    assert(self.provider@.pages[q] == padded@[q]@);
                    assert(padded@[q]@.len() == 0);
                    assert(padded@[q]@ =~= Seq::<(VoterIndex, Seq<(TargetIndex, u16)>)>::empty());
                } else {
                    assert(self.provider@.pages[q] == padded@[q]@);
                }
            }
        }
        match self.pallet.start() {
            Ok(_) => true,
            Err(_) => false,
        }
    }

    /// Advance block by block until the verifier is idle again, then read
    /// the queued solution, least significant page first.
    pub fn roll_to_full_verification(&mut self) -> (r: Vec<Supports>)
        requires
            old(self).wf(),
        ensures
            final(self).wf(),
            r@.len() == final(self).pages as int,
            forall|p: int| #![trigger r@[p]]
                0 <= p < r@.len() ==> match crate::queued::q_valid(
                    final(self).pallet@.queued,
                )[p] {
                    Some(s) => crate::types::supports_view(r@[p]) == s,
                    None => r@[p]@.len() == 0,
                },
    {
        loop
            invariant
                self.wf(),
            decreases (match self.pallet@.status {
                Status::Ongoing(p) => p as int + 1,
                Status::Nothing => 0int,
            }),
        {
            match self.pallet.status() {
                Status::Nothing => {
                    break ;
                },
                Status::Ongoing(_) => {
                    if self.block == u64::MAX {
                        break ;
                    }
                    self.step_block();
                },
            }
        }
        let mut out: Vec<Supports> = Vec::new();
        let mut p: PageIndex = 0;
        while p < self.pages
            invariant
                self.wf(),
                p <= self.pages,
                out@.len() == p as int,
                forall|q: int| #![trigger out@[q]]
                    0 <= q < p ==> match crate::queued::q_valid(self.pallet@.queued)[q] {
                        Some(s) => crate::types::supports_view(out@[q]) == s,
                        None => out@[q]@.len() == 0,
                    },
            decreases self.pages - p,
        {
            let ghost out0 = out@;
            match self.pallet.get_queued_solution_page(p) {
                Some(s) => out.push(s),
                None => out.push(Vec::new()),
            }
            proof {
                assert forall|q: int| #![trigger out@[q]] 0 <= q < p + 1 implies match crate::queued::q_valid(
                    self.pallet@.queued,
                )[q] {
                    Some(s) => crate::types::supports_view(out@[q]) == s,
                    None => out@[q]@.len() == 0,
                } by {
                    if q < p {
                        assert(out@[q] == out0[q]);
                        match crate::queued::q_valid(self.pallet@.queued)[q] {
                            Some(s) => {
                                assert(crate::types::supports_view(out0[q]) == s);
                            },
                            None => {
                                assert(out0[q]@.len() == 0);
                            },
                        }
                    }
                }
            }
            p = p + 1;
        }
        out
    }

    /// Whether the persistent state passes its own structural checks: the
    /// assembly buffers are empty while the verifier is idle, and a queued
    /// score coexists exactly with a fully populated valid buffer.
    pub fn sanity_checks(&self) -> (r: bool)
        requires
            self.wf(),
        ensures
            r == ({
                let q = self.pallet@.queued;
                let idle_clean = match self.pallet@.status {
                    Status::Nothing => crate::queued::count_some(crate::queued::q_invalid(q)) == 0
                        && crate::queued::count_some(q.backings) == 0,
                    Status::Ongoing(_) => true,
                };
                idle_clean && ((q.score is Some) == (forall|pg: int|
                    0 <= pg < crate::queued::q_pages(q) ==> (#[trigger] crate::queued::q_valid(
                        q,
                    )[pg]) is Some))
            }),
    {
        let idle_clean = match self.pallet.status() {
            Status::Nothing => {
                let inv = self.pallet.queued.invalid_iter();
                let back = self.pallet.queued.backing_iter();
                inv.len() == 0 && back.len() == 0
            },
            Status::Ongoing(_) => true,
        };
        let mut all_valid_present = true;
        let mut p: PageIndex = 0;
        while p < self.pages
            invariant
                self.wf(),
                p <= self.pages,
                all_valid_present == (forall|pg: int|
                    0 <= pg < p ==> (#[trigger] crate::queued::q_valid(
                        self.pallet@.queued,
                    )[pg]) is Some),
            decreases self.pages - p,
        {
            match self.pallet.get_queued_solution_page(p) {
                Some(_) => {
                    proof {
                        assert(crate::queued::q_valid(self.pallet@.queued)[p as int] is Some);
                    }
                },
                None => {
                    all_valid_present = false;
                },
            }
            p = p + 1;
        }
        let score_coherent = match self.pallet.queued_solution() {
            Some(_) => all_valid_present,
            None => !all_valid_present,
        };
        idle_clean && score_coherent
    }
}

/// The free and reserved balance of `who`: its first entry in the balance
/// table, or zero for an unknown account.
pub open spec fn balance_of(table: Seq<(AccountId, u64, u64)>, who: AccountId) -> (u64, u64)
    decreases table.len(),
{
    if table.len() == 0 {
        (0u64, 0u64)
    } else if table[0].0 == who {
        (table[0].1, table[0].2)
    } else {
        balance_of(table.drop_first(), who)
    }
}

/// An invalid solution with one empty page and the given claimed score.
pub fn fake_unsigned_solution(score: ElectionScore) -> (r: PagedRawSolution)
    ensures
        r.score == score,
        r.solution_pages@.len() == 1,
{
    let mut pages: Vec<SolutionPage> = Vec::new();
    pages.push(SolutionPage::new_empty());
    PagedRawSolution { solution_pages: pages, score, round: 0 }
}

/// A real, feasible single-page solution with a deliberately bad score:
/// two targets, each backed only by its own self vote.
pub fn raw_paged_solution_low_score() -> (r: PagedRawSolution)
    ensures
        r.solution_pages@.len() == 1,
        r.round == 1,
{
    let mut votes: Vec<(VoterIndex, Vec<(TargetIndex, u16)>)> = Vec::new();
    let mut d0: Vec<(TargetIndex, u16)> = Vec::new();
    d0.push((0, RATIO_ONE));
    votes.push((0, d0));
    let mut d1: Vec<(TargetIndex, u16)> = Vec::new();
    d1.push((2, RATIO_ONE));
    votes.push((1, d1));
    let mut pages: Vec<SolutionPage> = Vec::new();
    pages.push(SolutionPage { votes });
    PagedRawSolution {
        solution_pages: pages,
        score: ElectionScore { minimal_stake: 10, sum_stake: 20, sum_stake_squared: 200 },
        round: 1,
    }
}

/// Encode one page of supports as a solution page against the snapshot:
/// per voter, the weights it routes are turned back into rational parts
/// and the identities into page-local and global indices.
pub fn solution_from_supports(
    snapshot: &Snapshot,
    supports: &Supports,
    snapshot_page: PageIndex,
) -> (r: Result<SolutionPage, ()>) {
    let targets: &Vec<AccountId> = match &snapshot.targets {
        Some(t) => t,
        None => {
            return Err(());
        },
    };
    if snapshot_page as usize >= snapshot.voter_pages.len() {
        return Err(());
    }
    let voters: &Vec<Voter> = match &snapshot.voter_pages[snapshot_page as usize] {
        Some(v) => v,
        None => {
            return Err(());
        },
    };
    if targets.len() > u16::MAX as usize || voters.len() > u32::MAX as usize {
        return Err(());
    }
    // Gather the per-voter edges, in the order voters first appear.
    let mut edges: Vec<(AccountId, Vec<(AccountId, u128)>)> = Vec::new();
    let mut s: usize = 0;
    while s < supports.len()
        invariant
            s <= supports@.len(),
        decreases supports@.len() - s,
    {
        let winner = supports[s].0;
        let mut v: usize = 0;
        while v < supports[s].1.voters.len()
            invariant
                0 <= s < supports@.len(),
                v <= supports@[s as int].1.voters@.len(),
            decreases supports[s as int].1.voters.len() - v,
        {
            let (who, w) = supports[s].1.voters[v];
            let mut k: usize = 0;
            let mut found = false;
            while k < edges.len()
                invariant
                    k <= edges@.len(),
                decreases edges@.len() - k,
            {
                if edges[k].0 == who {
                    found = true;
                    break ;
                }
                k = k + 1;
            }
            if found && k < edges.len() {
                let mut e = take_edge_list(&mut edges, k);
                e.1.push((winner, w));
                edges.set(k, e);
            } else {
                let mut list: Vec<(AccountId, u128)> = Vec::new();
                list.push((winner, w));
                edges.push((who, list));
            }
            v = v + 1;
        }
        s = s + 1;
    }
    // Encode each voter's edges as parts of RATIO_ONE.
    let mut votes: Vec<(VoterIndex, Vec<(TargetIndex, u16)>)> = Vec::new();
    let mut k: usize = 0;
    while k < edges.len()
        invariant
            k <= edges@.len(),
            targets@.len() <= u16::MAX,
            voters@.len() <= u32::MAX,
        decreases edges@.len() - k,
    {
        let who = edges[k].0;
        let list = &edges[k].1;
        if list.len() == 0 {
            k = k + 1;
            continue ;
        }
        let mut total: u128 = 0;
        let mut j: usize = 0;
        while j < list.len()
            invariant
                j <= list@.len(),
            decreases list@.len() - j,
        {
            total = total.saturating_add(list[j].1);
            j = j + 1;
        }
        if total == 0 {
            return Err(());
        }
        let mut parts: Vec<u128> = Vec::new();
        let mut j: usize = 0;
        while j < list.len()
            invariant
                j <= list@.len(),
                total >= 1,
                parts@.len() == j,
                forall|x: int| 0 <= x < j ==> (#[trigger] parts@[x]) <= RATIO_ONE as u128,
            decreases list@.len() - j,
        {
            let w = list[j].1;
            let num = match w.checked_mul(RATIO_ONE as u128) {
                Some(x) => x,
                None => {
                    return Err(());
                },
            };
            let part = num / total;
            parts.push(if part > RATIO_ONE as u128 {
                RATIO_ONE as u128
            } else {
                part
            });
            j = j + 1;
        }
        normalize_exec(&mut parts, RATIO_ONE as u128);
        // Resolve the voter and target indices.
        let mut vidx: usize = 0;
        let mut vfound = false;
        while vidx < voters.len()
            invariant
                vidx <= voters@.len(),
            decreases voters@.len() - vidx,
        {
            if voters[vidx].0 == who {
                vfound = true;
                break ;
            }
            vidx = vidx + 1;
        }
        if !vfound || vidx >= voters.len() {
            return Err(());
        }
        let mut dist: Vec<(TargetIndex, u16)> = Vec::new();
        let mut j: usize = 0;
        while j < list.len()
            invariant
                j <= list@.len(),
                targets@.len() <= u16::MAX,
            decreases list@.len() - j,
        {
            let wid = list[j].0;
            let mut tidx: usize = 0;
            let mut tfound = false;
            while tidx < targets.len()
                invariant
                    tidx <= targets@.len(),
                decreases targets@.len() - tidx,
            {
                if targets[tidx] == wid {
                    tfound = true;
                    break ;
                }
                tidx = tidx + 1;
            }
            if !tfound || tidx >= targets.len() {
                return Err(());
            }
            let part: u128 = if j < parts.len() {
                parts[j]
            } else {
                0
            };
            dist.push(
                (
                    tidx as TargetIndex,
                    if part > RATIO_ONE as u128 {
                        RATIO_ONE
                    } else {
                        part as u16
                    },
                ),
            );
            j = j + 1;
        }
        votes.push((vidx as VoterIndex, dist));
        k = k + 1;
    }
    Ok(SolutionPage { votes })
}

/// Swap one edge list out of the vector, leaving an empty one behind.
fn take_edge_list(edges: &mut Vec<(AccountId, Vec<(AccountId, u128)>)>, i: usize) -> (r: (
    AccountId,
    Vec<(AccountId, u128)>,
))
    requires
        i < old(edges)@.len(),
    ensures
        final(edges)@.len() == old(edges)@.len(),
        r == old(edges)@[i as int],
{
    let placeholder: (AccountId, Vec<(AccountId, u128)>) = (0, Vec::new());
    let tmp = edges.remove(i);
    edges.insert(i, placeholder);
    tmp
}

/// Build a full paged solution from per-page supports, with the score the
/// flattened supports evaluate to.  Entry `i` of the given vector is
/// encoded against snapshot page `pages - len + i`.
pub fn raw_paged_from_supports(
    snapshot: &Snapshot,
    paged_supports: &Vec<Supports>,
    round: u32,
) -> (r: Result<PagedRawSolution, ()>) {
    let total = snapshot.pages();
    let given = paged_supports.len();
    if given > total || total > u32::MAX as usize {
        return Err(());
    }
    let offset = total - given;
    // The claimed score: evaluate the flattened supports entry by entry.
    let mut flat: Vec<(AccountId, PartialBackings)> = Vec::new();
    let mut p: usize = 0;
    while p < given
        invariant
            p <= paged_supports@.len(),
            given == paged_supports@.len(),
        decreases paged_supports@.len() - p,
    {
        let page = &paged_supports[p];
        let mut s: usize = 0;
        while s < page.len()
            invariant
                s <= page@.len(),
            decreases page@.len() - s,
        {
            let backers = page[s].1.voters.len();
            flat.push(
                (
                    page[s].0,
                    PartialBackings {
                        total: page[s].1.total,
                        backers: if backers > u32::MAX as usize {
                            u32::MAX
                        } else {
                            backers as u32
                        },
                    },
                ),
            );
            s = s + 1;
        }
        p = p + 1;
    }
    let score = evaluate_backings(&flat);
    let mut solution_pages: Vec<SolutionPage> = Vec::new();
    let mut p: usize = 0;
    while p < given
        invariant
            p <= paged_supports@.len(),
            given == paged_supports@.len(),
            offset + given <= u32::MAX,
        decreases paged_supports@.len() - p,
    {
        let page_index = (offset + p) as PageIndex;
        match solution_from_supports(snapshot, &paged_supports[p], page_index) {
            Ok(sp) => solution_pages.push(sp),
            Err(_) => {
                return Err(());
            },
        }
        p = p + 1;
    }
    Ok(PagedRawSolution { solution_pages, score, round })
}

} // verus!
