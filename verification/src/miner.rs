//! A reference miner: sequential phragmen over the whole snapshot.
//!
//! The miner elects the desired number of targets round by round, splits
//! each voter's stake across its elected targets in proportion to the
//! election loads, encodes the result as one solution page per snapshot
//! page, and claims as score exactly what the verifier will recompute from
//! those pages.  Loads are kept as exact rationals; any overflow of the
//! rational arithmetic aborts the mining.

use vstd::prelude::*;

use crate::queued::{add_backing_exec, compress_supports, fold_backing_pages};
use crate::score::{evaluate_backings_spec, evaluate_backings, ElectionScore};
use crate::snapshot::{Snapshot, SnapshotV};
use crate::solution::{
    convert_page_spec, normalize_spec, page_to_supports, PageV, PagedRawSolution, SolutionPage,
};
use crate::types::{
    copy_accounts, supports_view, AccountId, FeasibilityError, PageIndex, PartialBackings,
    Supports, VoteWeight, RATIO_ONE,
};

verus! {

/// Why mining failed.
#[derive(Clone, Copy, PartialEq, Eq, Structural, Debug)]
pub enum MinerError {
    /// The snapshot is not fully available.
    SnapshotUnavailable,
    /// The exact rational arithmetic left the machine's integer range.
    ArithmeticOverflow,
    /// The snapshot is too large for the index encoding of solutions.
    IndexOverflow,
    /// A mined page did not convert back into supports.
    Feasibility(FeasibilityError),
}

/// An exact nonnegative rational: `num / den` with `den >= 1`.
#[derive(Clone, Copy, PartialEq, Eq, Structural, Debug)]
struct Frac {
    num: u128,
    den: u128,
}

/// Greatest common divisor; positive whenever one argument is.
fn gcd(a0: u128, b0: u128) -> (r: u128)
    ensures
        (a0 > 0 || b0 > 0) ==> r > 0,
{
    let mut a = a0;
    let mut b = b0;
    while b != 0
        invariant
            (a0 > 0 || b0 > 0) ==> (a > 0 || b > 0),
        decreases b,
    {
        let t = a % b;
        a = b;
        b = t;
    }
    a
}

impl Frac {
    /// Structural soundness: the denominator is positive.
    spec fn wf(self) -> bool {
        self.den >= 1
    }

    /// Zero.
    fn zero() -> (r: Frac)
        ensures
            r.wf(),
            r.num == 0,
    {
        Frac { num: 0, den: 1 }
    }

    /// One.
    fn one() -> (r: Frac)
        ensures
            r.wf(),
    {
        Frac { num: 1, den: 1 }
    }

    /// The reduced form of `num / den`.
    fn reduced(num: u128, den: u128) -> (r: Frac)
        requires
            den >= 1,
        ensures
            r.wf(),
            num == 0 ==> r.num == 0,
            num > 0 ==> r.num > 0,
    {
        let g = gcd(num, den);
        proof {
            assert(g > 0);
        }
        let rn = num / g;
        let rd = den / g;
        let rn2 = if num > 0 && rn == 0 {
            1
        } else {
            rn
        };
        let rd2 = if rd == 0 {
            1
        } else {
            rd
        };
        Frac { num: rn2, den: rd2 }
    }

    /// `self + other`, or nothing on overflow.
    fn add(self, other: Frac) -> (r: Option<Frac>)
        requires
            self.wf(),
            other.wf(),
        ensures
            r matches Some(f) ==> f.wf(),
    {
        let c1 = match self.num.checked_mul(other.den) {
            Some(v) => v,
            None => {
                return None;
            },
        };
        let c2 = match other.num.checked_mul(self.den) {
            Some(v) => v,
            None => {
                return None;
            },
        };
        let num = match c1.checked_add(c2) {
            Some(v) => v,
            None => {
                return None;
            },
        };
        let den = match self.den.checked_mul(other.den) {
            Some(v) => v,
            None => {
                return None;
            },
        };
        proof {
            assert(den >= 1) by (nonlinear_arith)
                requires
                    self.den >= 1,
                    other.den >= 1,
                    den == self.den * other.den,
            ;
        }
        Some(Frac::reduced(num, den))
    }

    /// `self - other`, or nothing on overflow or a negative result.
    fn sub(self, other: Frac) -> (r: Option<Frac>)
        requires
            self.wf(),
            other.wf(),
        ensures
            r matches Some(f) ==> f.wf(),
    {
        let c1 = match self.num.checked_mul(other.den) {
            Some(v) => v,
            None => {
                return None;
            },
        };
        let c2 = match other.num.checked_mul(self.den) {
            Some(v) => v,
            None => {
                return None;
            },
        };
        if c1 < c2 {
            return None;
        }
        let den = match self.den.checked_mul(other.den) {
            Some(v) => v,
            None => {
                return None;
            },
        };
        proof {
            assert(den >= 1) by (nonlinear_arith)
                requires
                    self.den >= 1,
                    other.den >= 1,
                    den == self.den * other.den,
            ;
        }
        Some(Frac::reduced(c1 - c2, den))
    }

    /// `self * k`, or nothing on overflow.
    fn mul_nat(self, k: u128) -> (r: Option<Frac>)
        requires
            self.wf(),
        ensures
            r matches Some(f) ==> f.wf(),
    {
        match self.num.checked_mul(k) {
            Some(num) => Some(Frac::reduced(num, self.den)),
            None => None,
        }
    }

    /// `self / k`, or nothing on overflow.
    fn div_nat(self, k: u128) -> (r: Option<Frac>)
        requires
            self.wf(),
            k >= 1,
        ensures
            r matches Some(f) ==> f.wf(),
    {
        match self.den.checked_mul(k) {
            Some(den) => {
                proof {
                    assert(den >= 1) by (nonlinear_arith)
                        requires
                            self.den >= 1,
                            k >= 1,
                            den == self.den * k,
                    ;
                }
                Some(Frac::reduced(self.num, den))
            },
            None => None,
        }
    }

    /// Whether `self < other`, or nothing on overflow.
    fn lt(self, other: Frac) -> (r: Option<bool>)
        requires
            self.wf(),
            other.wf(),
    {
        let c1 = match self.num.checked_mul(other.den) {
            Some(v) => v,
            None => {
                return None;
            },
        };
        let c2 = match other.num.checked_mul(self.den) {
            Some(v) => v,
            None => {
                return None;
            },
        };
        Some(c1 < c2)
    }
}

/// One voter of the flattened mining electorate.
struct MinerVoter {
    /// The voter's identity.
    who: AccountId,
    /// The voter's stake.
    stake: VoteWeight,
    /// The targets the voter declared.
    votes: Vec<AccountId>,
    /// The snapshot page the voter lives on.
    page: PageIndex,
    /// The voter's index within that page.
    index: u32,
}

/// The page a padded solution serves for round page `p`: pages below the
/// mined range are empty.
pub open spec fn padded_page(sol_pages: Seq<PageV>, total: int, p: int) -> PageV {
    if p >= total - sol_pages.len() {
        sol_pages[p - (total - sol_pages.len())]
    } else {
        Seq::empty()
    }
}

/// Whether every padded page of a mined solution converts into supports.
pub open spec fn mined_convertible(snap: SnapshotV, sol_pages: Seq<PageV>, total: int) -> bool {
    forall|p: int|
        0 <= p < total ==> (#[trigger] convert_page_spec(
            snap,
            padded_page(sol_pages, total, p),
            p,
        )) is Ok
}

/// The score the verifier will recompute for a mined solution: fold the
/// compressed supports of every padded page and evaluate.
pub open spec fn mined_score_spec(snap: SnapshotV, sol_pages: Seq<PageV>, total: int) -> ElectionScore {
    evaluate_backings_spec(
        fold_backing_pages(
            Seq::new(
                total as nat,
                |p: int|
                    compress_supports(
                        convert_page_spec(snap, padded_page(sol_pages, total, p), p).unwrap(),
                    ),
            ),
        ),
    )
}

/// Mine a solution over the `pages_to_mine` most significant snapshot
/// pages.  The returned solution carries one page per mined snapshot page
/// (least significant first) and claims exactly the score the verifier
/// will recompute for it.
pub fn mine_paged_solution(snapshot: &Snapshot, pages_to_mine: PageIndex, round: u32) -> (r: Result<
    PagedRawSolution,
    MinerError,
>)
    ensures
        r matches Ok(sol) ==> {
            let views = sol.solution_pages@.map_values(|sp: SolutionPage| sp@);
            let total = snapshot@.voter_pages.len() as int;
            &&& sol.solution_pages@.len() == pages_to_mine as int
            &&& sol.round == round
            &&& mined_convertible(snapshot@, views, total)
            &&& sol.score == mined_score_spec(snapshot@, views, total)
        },
{
    let total_pages = snapshot.pages();
    if pages_to_mine == 0 || (pages_to_mine as usize) > total_pages {
        return Err(MinerError::SnapshotUnavailable);
    }
    if !snapshot.is_full() {
        return Err(MinerError::SnapshotUnavailable);
    }
    let targets: Vec<AccountId> = match &snapshot.targets {
        Some(t) => copy_accounts(t),
        None => {
            return Err(MinerError::SnapshotUnavailable);
        },
    };
    let desired: u32 = match snapshot.desired_targets {
        Some(d) => d,
        None => {
            return Err(MinerError::SnapshotUnavailable);
        },
    };
    if targets.len() > u16::MAX as usize {
        return Err(MinerError::IndexOverflow);
    }
    if total_pages > u32::MAX as usize {
        return Err(MinerError::IndexOverflow);
    }
    // Flatten the mined pages, most significant first.
    let msp = total_pages - 1;
    let first_mined = total_pages - pages_to_mine as usize;
    let mut voters: Vec<MinerVoter> = Vec::new();
    let mut p: usize = msp;
    loop
        invariant
            first_mined <= p < total_pages,
            total_pages == snapshot@.voter_pages.len(),
            snapshot@.targets is Some,
            snapshot@.desired_targets is Some,
            forall|q: int|
                0 <= q < snapshot@.voter_pages.len() ==> (#[trigger] snapshot@.voter_pages[q])
                    is Some,
        decreases p,
    {
        let page_voters = match &snapshot.voter_pages[p] {
            Some(v) => v,
            None => {
                // The fullness check above found every page present.
                proof {
                    assert(snapshot@.voter_pages[p as int] is Some);
                    assert(false);
                }
                return Err(MinerError::SnapshotUnavailable);
            },
        };
        if page_voters.len() > u32::MAX as usize {
            return Err(MinerError::IndexOverflow);
        }
        let mut i: usize = 0;
        while i < page_voters.len()
            invariant
                i <= page_voters@.len(),
                page_voters@.len() <= u32::MAX,
            decreases page_voters.len() - i,
        {
            let (who, stake, votes) = (
                page_voters[i].0,
                page_voters[i].1,
                copy_accounts(&page_voters[i].2),
            );
            voters.push(
                MinerVoter { who, stake, votes, page: p as PageIndex, index: i as u32 },
            );
            i = i + 1;
        }
        if p == first_mined {
            break ;
        }
        p = p - 1;
    }
    // Approval stake per target.
    let mut approvals: Vec<u128> = Vec::new();
    let mut t: usize = 0;
    while t < targets.len()
        invariant
            t <= targets@.len(),
            approvals@.len() == t,
        decreases targets.len() - t,
    {
        let mut acc: u128 = 0;
        let mut v: usize = 0;
        while v < voters.len()
            invariant
                v <= voters@.len(),
                0 <= t < targets@.len(),
            decreases voters.len() - v,
        {
            if contains_id(&voters[v].votes, targets[t]) {
                acc = acc.saturating_add(voters[v].stake as u128);
            }
            v = v + 1;
        }
        approvals.push(acc);
        t = t + 1;
    }
    // Sequential phragmen rounds.
    let nv = voters.len();
    let mut loads: Vec<Frac> = Vec::new();
    let mut edges: Vec<Vec<(u16, AccountId, Frac)>> = Vec::new();
    let mut v: usize = 0;
    while v < nv
        invariant
            v <= nv,
            loads@.len() == v,
            edges@.len() == v,
            forall|k: int| 0 <= k < v ==> (#[trigger] loads@[k]).wf(),
        decreases nv - v,
    {
        loads.push(Frac::zero());
        edges.push(Vec::new());
        v = v + 1;
    }
    let mut elected_flags: Vec<bool> = Vec::new();
    let mut t: usize = 0;
    while t < targets.len()
        invariant
            t <= targets@.len(),
            elected_flags@.len() == t,
        decreases targets.len() - t,
    {
        elected_flags.push(false);
        t = t + 1;
    }
    let to_elect: usize = if (desired as usize) < targets.len() {
        desired as usize
    } else {
        targets.len()
    };
    let mut round_i: usize = 0;
    while round_i < to_elect
        invariant
            loads@.len() == nv,
            edges@.len() == nv,
            nv == voters@.len(),
            elected_flags@.len() == targets@.len(),
            approvals@.len() == targets@.len(),
            targets@.len() <= u16::MAX,
            forall|k: int| 0 <= k < nv ==> (#[trigger] loads@[k]).wf(),
        decreases to_elect - round_i,
    {
        // Find the candidate with the lowest score.
        let mut best_t: usize = 0;
        let mut best_score: Frac = Frac::zero();
        let mut have_best = false;
        let mut t: usize = 0;
        while t < targets.len()
            invariant
                loads@.len() == nv,
                nv == voters@.len(),
                elected_flags@.len() == targets@.len(),
                approvals@.len() == targets@.len(),
                t <= targets@.len(),
                have_best ==> best_t < targets@.len() && best_score.wf(),
                forall|k: int| 0 <= k < nv ==> (#[trigger] loads@[k]).wf(),
            decreases targets.len() - t,
        {
            if !elected_flags[t] && approvals[t] > 0 {
                let mut acc = Frac::one();
                let mut v: usize = 0;
                while v < nv
                    invariant
                        loads@.len() == nv,
                        nv == voters@.len(),
                        0 <= t < targets@.len(),
                        v <= nv,
                        acc.wf(),
                        forall|k: int| 0 <= k < nv ==> (#[trigger] loads@[k]).wf(),
                    decreases nv - v,
                {
                    if contains_id(&voters[v].votes, targets[t]) && loads[v].num > 0 {
                        let term = match loads[v].mul_nat(voters[v].stake as u128) {
                            Some(f) => f,
                            None => {
                                return Err(MinerError::ArithmeticOverflow);
                            },
                        };
                        acc = match acc.add(term) {
                            Some(f) => f,
                            None => {
                                return Err(MinerError::ArithmeticOverflow);
                            },
                        };
                    }
                    v = v + 1;
                }
                let score = match acc.div_nat(approvals[t]) {
                    Some(f) => f,
                    None => {
                        return Err(MinerError::ArithmeticOverflow);
                    },
                };
                let better = if !have_best {
                    true
                } else {
                    match score.lt(best_score) {
                        Some(b) => b,
                        None => {
                            return Err(MinerError::ArithmeticOverflow);
                        },
                    }
                };
                if better {
                    best_t = t;
                    best_score = score;
                    have_best = true;
                }
            }
            t = t + 1;
        }
        if !have_best {
            break ;
        }
        // Elect it and update loads and edges.
        elected_flags.set(best_t, true);
        let mut v: usize = 0;
        while v < nv
            invariant
                loads@.len() == nv,
                edges@.len() == nv,
                nv == voters@.len(),
                0 <= best_t < targets@.len(),
                targets@.len() <= u16::MAX,
                best_score.wf(),
                v <= nv,
                forall|k: int| 0 <= k < nv ==> (#[trigger] loads@[k]).wf(),
            decreases nv - v,
        {
            if contains_id(&voters[v].votes, targets[best_t]) {
                let edge = match best_score.sub(loads[v]) {
                    Some(f) => f,
                    None => {
                        return Err(MinerError::ArithmeticOverflow);
                    },
                };
                let mut ev = take_edges(&mut edges, v);
                ev.push((best_t as u16, targets[best_t], edge));
                edges.set(v, ev);
                loads.set(v, best_score);
            }
            v = v + 1;
        }
        round_i = round_i + 1;
    }
    // Encode per-voter distributions into per-page solutions.
    let mut pages_out: Vec<SolutionPage> = Vec::new();
    let mut k: usize = 0;
    while k < pages_to_mine as usize
        invariant
            k <= pages_to_mine as usize,
            pages_out@.len() == k,
        decreases pages_to_mine as usize - k,
    {
        pages_out.push(SolutionPage::new_empty());
        k = k + 1;
    }
    let mut v: usize = 0;
    while v < nv
        invariant
            loads@.len() == nv,
            edges@.len() == nv,
            nv == voters@.len(),
            pages_out@.len() == pages_to_mine as int,
            first_mined == total_pages - pages_to_mine as usize,
            total_pages >= 1,
            pages_to_mine >= 1,
            v <= nv,
            forall|k2: int| 0 <= k2 < nv ==> (#[trigger] loads@[k2]).wf(),
        decreases nv - v,
    {
        if edges[v].len() > 0 && loads[v].num > 0 {
            let load = loads[v];
            // Raw parts per edge, in the order of the voter's declared
            // votes.
            let mut parts_raw: Vec<u128> = Vec::new();
            let mut tidxs: Vec<u16> = Vec::new();
            let mut w: usize = 0;
            while w < voters[v].votes.len()
                invariant
                    loads@.len() == nv,
                    edges@.len() == nv,
                    nv == voters@.len(),
                    0 <= v < nv,
                    w <= voters@[v as int].votes@.len(),
                    parts_raw@.len() == tidxs@.len(),
                    load.wf(),
                    load.num > 0,
                    forall|k2: int| 0 <= k2 < parts_raw@.len() ==> (#[trigger] parts_raw@[k2])
                        <= RATIO_ONE as u128,
                decreases voters[v as int].votes.len() - w,
            {
                let wid = voters[v].votes[w];
                match find_edge(&edges[v], wid) {
                    Some((tidx, e)) => {
                        // ratio = e / load; parts = floor(RATIO_ONE * ratio).
                        let n1 = match e.num.checked_mul(load.den) {
                            Some(x) => x,
                            None => {
                                return Err(MinerError::ArithmeticOverflow);
                            },
                        };
                        let n2 = match n1.checked_mul(RATIO_ONE as u128) {
                            Some(x) => x,
                            None => {
                                return Err(MinerError::ArithmeticOverflow);
                            },
                        };
                        let d = match e.den.checked_mul(load.num) {
                            Some(x) => x,
                            None => {
                                return Err(MinerError::ArithmeticOverflow);
                            },
                        };
                        if d == 0 {
                            return Err(MinerError::ArithmeticOverflow);
                        }
                        let parts = n2 / d;
                        let clamped = if parts > RATIO_ONE as u128 {
                            RATIO_ONE as u128
                        } else {
                            parts
                        };
                        parts_raw.push(clamped);
                        tidxs.push(tidx);
                    },
                    None => {},
                }
                w = w + 1;
            }
            if parts_raw.len() > 0 {
                normalize_parts(&mut parts_raw, Ghost(tidxs@.len() as int));
                // Append the entry to the voter's page.
                let page_rel = if voters[v].page as usize >= first_mined {
                    voters[v].page as usize - first_mined
                } else {
                    0
                };
                let mut entry_dist: Vec<(u16, u16)> = Vec::new();
                let mut w: usize = 0;
                while w < parts_raw.len()
                    invariant
                        parts_raw@.len() == tidxs@.len(),
                        w <= parts_raw@.len(),
                    decreases parts_raw.len() - w,
                {
                    let pv = parts_raw[w];
                    entry_dist.push((tidxs[w], if pv > RATIO_ONE as u128 {
                        RATIO_ONE
                    } else {
                        pv as u16
                    }));
                    w = w + 1;
                }
                if page_rel < pages_out.len() {
                    let mut page_sol = take_page(&mut pages_out, page_rel);
                    page_sol.votes.push((voters[v].index, entry_dist));
                    pages_out.set(page_rel, page_sol);
                }
            }
        }
        v = v + 1;
    }
    // Recompute the claimed score exactly as the verifier will.
    let ghost views = pages_out@.map_values(|sp: SolutionPage| sp@);
    let mut agg: Vec<(AccountId, PartialBackings)> = Vec::new();
    let ghost compress_seq = Seq::new(
        snapshot@.voter_pages.len(),
        |p: int|
            compress_supports(
                convert_page_spec(
                    snapshot@,
                    padded_page(views, snapshot@.voter_pages.len() as int, p),
                    p,
                ).unwrap(),
            ),
    );
    let mut p: usize = 0;
    while p < total_pages
        invariant
            total_pages <= u32::MAX,
            total_pages == snapshot@.voter_pages.len(),
            pages_out@.len() == pages_to_mine as int,
            first_mined == total_pages - pages_to_mine as usize,
            views == pages_out@.map_values(|sp: SolutionPage| sp@),
            compress_seq == Seq::new(
                snapshot@.voter_pages.len(),
                |q: int|
                    compress_supports(
                        convert_page_spec(
                            snapshot@,
                            padded_page(views, snapshot@.voter_pages.len() as int, q),
                            q,
                        ).unwrap(),
                    ),
            ),
            p <= total_pages,
            forall|q: int|
                0 <= q < p ==> (#[trigger] convert_page_spec(
                    snapshot@,
                    padded_page(views, snapshot@.voter_pages.len() as int, q),
                    q,
                )) is Ok,
            agg@ == fold_backing_pages(compress_seq.subrange(0, p as int)),
        decreases total_pages - p,
    {
        proof {
            assert(compress_seq.subrange(0, p + 1).drop_last() =~= compress_seq.subrange(
                0,
                p as int,
            ));
            assert(compress_seq.subrange(0, p + 1).last() == compress_seq[p as int]);
        }
        let empty_page = SolutionPage::new_empty();
        let page_sol: &SolutionPage = if p >= first_mined {
            &pages_out[p - first_mined]
        } else {
            &empty_page
        };
        proof {
            assert(page_sol@ =~= padded_page(views, snapshot@.voter_pages.len() as int, p as int));
        }
        let sups: Supports = match page_to_supports(snapshot, page_sol, p as PageIndex) {
            Ok(s) => s,
            Err(e) => {
                return Err(MinerError::Feasibility(e));
            },
        };
        // Compress and fold this page.
        let ghost agg0 = agg@;
        let ghost comp = compress_supports(supports_view(sups));
        let mut j: usize = 0;
        while j < sups.len()
            invariant
                j <= sups@.len(),
                comp == compress_supports(supports_view(sups)),
                comp.len() == sups@.len(),
                agg@ == crate::queued::fold_backing_page(agg0, comp.subrange(0, j as int)),
            decreases sups.len() - j,
        {
            proof {
                assert(comp.subrange(0, j + 1).drop_last() =~= comp.subrange(0, j as int));
                assert(comp.subrange(0, j + 1).last() == comp[j as int]);
                assert(comp[j as int] == (
                    sups@[j as int].0,
                    PartialBackings {
                        total: sups@[j as int].1.total,
                        backers: sups@[j as int].1.voters@.len() as u32,
                    },
                ));
            }
            let who = sups[j].0;
            let pb = PartialBackings {
                total: sups[j].1.total,
                backers: sups[j].1.voters.len() as u32,
            };
            add_backing_exec(&mut agg, who, pb);
            j = j + 1;
        }
        proof {
            assert(comp.subrange(0, comp.len() as int) =~= comp);
            assert(comp == compress_seq[p as int]);
        }
        p = p + 1;
    }
    proof {
        assert(compress_seq.subrange(0, total_pages as int) =~= compress_seq);
    }
    let score = evaluate_backings(&agg);
    Ok(PagedRawSolution { solution_pages: pages_out, score, round })
}

/// Whether `x` occurs in `v`.
fn contains_id(v: &Vec<AccountId>, x: AccountId) -> (r: bool)
    ensures
        r == v@.contains(x),
{
    let mut i: usize = 0;
    while i < v.len()
        invariant
            i <= v@.len(),
            forall|j: int| 0 <= j < i ==> v@[j] != x,
        decreases v.len() - i,
    {
        if v[i] == x {
            return true;
        }
        i = i + 1;
    }
    false
}

/// The edge of `edges` whose target identity is `wid`, if any.
fn find_edge(edges: &Vec<(u16, AccountId, Frac)>, wid: AccountId) -> (r: Option<(u16, Frac)>)
{
    let mut i: usize = 0;
    while i < edges.len()
        invariant
            i <= edges@.len(),
        decreases edges.len() - i,
    {
        if edges[i].1 == wid {
            return Some((edges[i].0, edges[i].2));
        }
        i = i + 1;
    }
    None
}

/// Swap one page out of the vector, leaving an empty page behind.
fn take_page(pages: &mut Vec<SolutionPage>, i: usize) -> (r: SolutionPage)
    requires
        i < old(pages)@.len(),
    ensures
        final(pages)@.len() == old(pages)@.len(),
        r == old(pages)@[i as int],
{
    let empty = SolutionPage::new_empty();
    let mut tmp = pages.remove(i);
    pages.insert(i, empty);
    tmp
}

/// Swap one edge list out of the vector, leaving an empty list behind.
fn take_edges(edges: &mut Vec<Vec<(u16, AccountId, Frac)>>, i: usize) -> (r: Vec<(
    u16,
    AccountId,
    Frac,
)>)
    requires
        i < old(edges)@.len(),
    ensures
        final(edges)@.len() == old(edges)@.len(),
        r == old(edges)@[i as int],
{
    let empty: Vec<(u16, AccountId, Frac)> = Vec::new();
    let mut tmp = edges.remove(i);
    edges.insert(i, empty);
    tmp
}

/// Normalize raw parts so that they sum to exactly [`RATIO_ONE`], with the
/// same discipline the verifier's weight normalization uses.
fn normalize_parts(parts: &mut Vec<u128>, _n: Ghost<int>)
    requires
        old(parts)@.len() > 0,
        forall|i: int| 0 <= i < old(parts)@.len() ==> (#[trigger] old(parts)@[i]) <= RATIO_ONE
            as u128,
    ensures
        final(parts)@ == normalize_spec(old(parts)@, RATIO_ONE as u128),
        final(parts)@.len() == old(parts)@.len(),
{
    crate::solution::normalize_exec(parts, RATIO_ONE as u128);
    proof {
        crate::solution::lemma_normalize_len(old(parts)@, RATIO_ONE as u128);
    }
}

} // verus!
