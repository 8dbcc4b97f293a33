//! The double-buffered store of the queued solution.
//!
//! Two parallel page stores `x` and `y` and a one-bit pointer say which of
//! them holds the currently *valid* (fully verified) solution; the other is
//! the *invalid* buffer in which a challenger is assembled page by page.
//! Committing a fully verified challenger flips the pointer, so the valid
//! solution is replaced atomically and without copying.  `backings` keeps,
//! per page and only while assembling, the compressed form of each written
//! page; `score` holds the score of the valid solution alone.

use vstd::prelude::*;

use crate::score::{evaluate_backings, evaluate_backings_spec, ElectionScore};
use crate::types::{
    duplicate_supports, supports_view, AccountId, FeasibilityError, PageIndex, PartialBackings,
    SupportV, Supports,
};

verus! {

/// Which of the two buffers holds the valid solution.
#[derive(Clone, Copy)]
enum ValidSolution {
    X,
    Y,
}

impl ValidSolution {
    /// The other buffer.
    fn other(&self) -> (r: ValidSolution)
        ensures
            r is X <==> !(*self is X),
    {
        match *self {
            ValidSolution::X => ValidSolution::Y,
            ValidSolution::Y => ValidSolution::X,
        }
    }
}

/// One buffer of pages: for every page, either nothing or a supports page.
pub type SideV = Seq<Option<Seq<(AccountId, SupportV)>>>;

/// The mathematical state of the store.
pub ghost struct QueuedV {
    /// The `x` buffer, page by page.
    pub x: SideV,
    /// The `y` buffer, page by page.
    pub y: SideV,
    /// Whether `x` is the valid buffer; otherwise `y` is.
    pub valid_x: bool,
    /// The compressed backings of the pages written to the invalid buffer.
    pub backings: Seq<Option<Seq<(AccountId, PartialBackings)>>>,
    /// The score of the valid solution, if one is queued.
    pub score: Option<ElectionScore>,
}

/// Structural soundness: all three page stores cover the same pages.
pub open spec fn q_wf(q: QueuedV) -> bool {
    &&& q.x.len() == q.y.len()
    &&& q.backings.len() == q.x.len()
}

/// The number of pages the store covers.
pub open spec fn q_pages(q: QueuedV) -> int {
    q.x.len() as int
}

/// The valid buffer.
pub open spec fn q_valid(q: QueuedV) -> SideV {
    if q.valid_x {
        q.x
    } else {
        q.y
    }
}

/// The invalid buffer.
pub open spec fn q_invalid(q: QueuedV) -> SideV {
    if q.valid_x {
        q.y
    } else {
        q.x
    }
}

/// A buffer with nothing on any of `n` pages.
pub open spec fn empty_side(n: int) -> SideV {
    Seq::new(n as nat, |i: int| None)
}

/// A backings store with nothing on any of `n` pages.
pub open spec fn empty_backings(n: int) -> Seq<Option<Seq<(AccountId, PartialBackings)>>> {
    Seq::new(n as nat, |i: int| None)
}

/// The state of a freshly created (or killed) store for `n` pages.
pub open spec fn empty_queued(n: int) -> QueuedV {
    QueuedV {
        x: empty_side(n),
        y: empty_side(n),
        valid_x: false,
        backings: empty_backings(n),
        score: None,
    }
}

/// The compressed form of a supports page: per winner, its total and its
/// number of backers.
pub open spec fn compress_supports(s: Seq<(AccountId, SupportV)>) -> Seq<(
    AccountId,
    PartialBackings,
)> {
    s.map_values(
        |e: (AccountId, SupportV)|
            (e.0, PartialBackings { total: e.1.total, backers: e.1.voters.len() as u32 }),
    )
}

/// Writing one fully verified page into the invalid buffer: the page itself
/// goes to the invalid side, its compressed form to the backings.
pub open spec fn set_invalid_page_v(q: QueuedV, page: int, s: Seq<(AccountId, SupportV)>) -> QueuedV {
    let nb = q.backings.update(page, Some(compress_supports(s)));
    if q.valid_x {
        QueuedV { y: q.y.update(page, Some(s)), backings: nb, ..q }
    } else {
        QueuedV { x: q.x.update(page, Some(s)), backings: nb, ..q }
    }
}

/// Dropping the invalid buffer and all backings; the pointer stays.
pub open spec fn clear_invalid_v(q: QueuedV) -> QueuedV {
    let n = q_pages(q);
    if q.valid_x {
        QueuedV { y: empty_side(n), backings: empty_backings(q.backings.len() as int), ..q }
    } else {
        QueuedV { x: empty_side(n), backings: empty_backings(q.backings.len() as int), ..q }
    }
}

/// Dropping the valid buffer and its score; the pointer stays.
pub open spec fn clear_valid_v(q: QueuedV) -> QueuedV {
    let n = q_pages(q);
    if q.valid_x {
        QueuedV { x: empty_side(n), score: None, ..q }
    } else {
        QueuedV { y: empty_side(n), score: None, ..q }
    }
}

/// Committing a fully verified challenger: flip the pointer, store its
/// score, drop all backings, and drop what was the valid buffer before.
pub open spec fn finalize_correct_v(q: QueuedV, score: ElectionScore) -> QueuedV {
    let n = q_pages(q);
    let flipped = QueuedV {
        valid_x: !q.valid_x,
        score: Some(score),
        backings: empty_backings(q.backings.len() as int),
        ..q
    };
    if flipped.valid_x {
        QueuedV { y: empty_side(n), ..flipped }
    } else {
        QueuedV { x: empty_side(n), ..flipped }
    }
}

/// Writing a whole solution into the valid buffer, blindly, together with
/// its claimed score.  The invalid buffer and the backings stay.
pub open spec fn force_set_valid_v(
    q: QueuedV,
    pages: Seq<Seq<(AccountId, SupportV)>>,
    score: ElectionScore,
) -> QueuedV {
    let side = Seq::new(pages.len(), |i: int| Some(pages[i]));
    if q.valid_x {
        QueuedV { x: side, score: Some(score), ..q }
    } else {
        QueuedV { y: side, score: Some(score), ..q }
    }
}

/// Clearing the valid buffer, then installing a single page and a score.
pub open spec fn force_set_single_page_valid_v(
    q: QueuedV,
    page: int,
    s: Seq<(AccountId, SupportV)>,
    score: ElectionScore,
) -> QueuedV {
    let c = clear_valid_v(q);
    if c.valid_x {
        QueuedV { x: c.x.update(page, Some(s)), score: Some(score), ..c }
    } else {
        QueuedV { y: c.y.update(page, Some(s)), score: Some(score), ..c }
    }
}

/// First index of `who` in aggregated backings, `-1` when absent.
pub open spec fn find_key(agg: Seq<(AccountId, PartialBackings)>, who: AccountId) -> int
    decreases agg.len(),
{
    if agg.len() == 0 {
        -1
    } else if agg[0].0 == who {
        0
    } else {
        let r = find_key(agg.drop_first(), who);
        if r == -1 {
            -1
        } else {
            r + 1
        }
    }
}

/// What [`find_key`] finds: the first occurrence of `who`, or nothing.
pub proof fn lemma_find_key(agg: Seq<(AccountId, PartialBackings)>, who: AccountId)
    ensures
        (forall|j: int| 0 <= j < agg.len() ==> (#[trigger] agg[j]).0 != who) ==> find_key(agg, who)
            == -1,
        (exists|j: int| 0 <= j < agg.len() && (#[trigger] agg[j]).0 == who) ==> {
            let k = find_key(agg, who);
            &&& 0 <= k < agg.len()
            &&& agg[k].0 == who
            &&& forall|j: int| 0 <= j < k ==> (#[trigger] agg[j]).0 != who
        },
    decreases agg.len(),
{
    if agg.len() == 0 {
    } else if agg[0].0 == who {
    } else {
        lemma_find_key(agg.drop_first(), who);
        let d = agg.drop_first();
        assert(forall|j: int| 0 <= j < d.len() ==> #[trigger] d[j] == agg[j + 1]);
        if exists|j: int| 0 <= j < agg.len() && (#[trigger] agg[j]).0 == who {
            let j0 = choose|j: int| 0 <= j < agg.len() && (#[trigger] agg[j]).0 == who;
            assert(d[j0 - 1].0 == who);
            let k = find_key(d, who);
            assert(0 <= k < d.len() && d[k].0 == who);
            assert(find_key(agg, who) == k + 1);
            assert forall|j: int| 0 <= j < k + 1 implies (#[trigger] agg[j]).0 != who by {
                if j >= 1 {
                    assert(d[j - 1].0 != who);
                }
            }
        }
    }
}

/// One backing entry folded into the aggregate: combined into the winner's
/// existing entry with saturating sums, or appended as a new winner.
pub open spec fn add_backing(
    agg: Seq<(AccountId, PartialBackings)>,
    who: AccountId,
    pb: PartialBackings,
) -> Seq<(AccountId, PartialBackings)> {
    let k = find_key(agg, who);
    if k == -1 {
        agg.push((who, pb))
    } else {
        agg.update(
            k,
            (
                who,
                PartialBackings {
                    total: agg[k].1.total.saturating_add(pb.total),
                    backers: agg[k].1.backers.saturating_add(pb.backers),
                },
            ),
        )
    }
}

/// One backing page folded into the aggregate, entry by entry in page order.
pub open spec fn fold_backing_page(
    agg: Seq<(AccountId, PartialBackings)>,
    page: Seq<(AccountId, PartialBackings)>,
) -> Seq<(AccountId, PartialBackings)>
    decreases page.len(),
{
    if page.len() == 0 {
        agg
    } else {
        add_backing(fold_backing_page(agg, page.drop_last()), page.last().0, page.last().1)
    }
}

/// All backing pages folded into one aggregate, in ascending page order.
pub open spec fn fold_backing_pages(pages: Seq<Seq<(AccountId, PartialBackings)>>) -> Seq<(
    AccountId,
    PartialBackings,
)>
    decreases pages.len(),
{
    if pages.len() == 0 {
        Seq::empty()
    } else {
        fold_backing_page(fold_backing_pages(pages.drop_last()), pages.last())
    }
}

/// The backing pages of a store on which every page has been written.
pub open spec fn all_backing_pages(q: QueuedV) -> Seq<Seq<(AccountId, PartialBackings)>> {
    Seq::new(q.backings.len(), |i: int| q.backings[i].unwrap())
}

/// What finalization computes from the assembled backings:
/// * `Incomplete` if any page of backings is missing;
/// * `TooManyBackings` if any winner's aggregated backer count exceeds
///   `max_backers`;
/// * otherwise the evaluated score and the aggregate winner count.
pub open spec fn final_score_v(q: QueuedV, max_backers: u32) -> Result<
    (ElectionScore, u32),
    FeasibilityError,
> {
    if exists|p: int| 0 <= p < q.backings.len() && q.backings[p] is None {
        Err(FeasibilityError::Incomplete)
    } else {
        let agg = fold_backing_pages(all_backing_pages(q));
        if exists|k: int| 0 <= k < agg.len() && (#[trigger] agg[k]).1.backers > max_backers {
            Err(FeasibilityError::TooManyBackings)
        } else {
            Ok((evaluate_backings_spec(agg), winner_count_of(agg)))
        }
    }
}

/// How many pages of a buffer hold something.
pub open spec fn count_some<T>(side: Seq<Option<T>>) -> int
    decreases side.len(),
{
    if side.len() == 0 {
        0
    } else {
        count_some(side.drop_last()) + if side.last() is Some {
            1int
        } else {
            0int
        }
    }
}

/// A buffer never holds more present pages than pages.
pub proof fn lemma_count_some_le<T>(side: Seq<Option<T>>)
    ensures
        0 <= count_some(side) <= side.len(),
    decreases side.len(),
{
    if side.len() > 0 {
        lemma_count_some_le(side.drop_last());
    }
}

/// The number of aggregated winners, saturating at `u32::MAX`.
pub open spec fn winner_count_of(agg: Seq<(AccountId, PartialBackings)>) -> u32 {
    if agg.len() > u32::MAX {
        u32::MAX
    } else {
        agg.len() as u32
    }
}

/// The persistent double-buffered store.
pub struct QueuedSolution {
    x: Vec<Option<Supports>>,
    y: Vec<Option<Supports>>,
    valid: ValidSolution,
    backings: Vec<Option<Vec<(AccountId, PartialBackings)>>>,
    score: Option<ElectionScore>,
}

impl View for QueuedSolution {
    type V = QueuedV;

    closed spec fn view(&self) -> QueuedV {
        QueuedV {
            x: side_view(self.x),
            y: side_view(self.y),
            valid_x: self.valid is X,
            backings: backings_view(self.backings),
            score: self.score,
        }
    }
}

/// The mathematical value of one buffer.
spec fn side_view(v: Vec<Option<Supports>>) -> SideV {
    v@.map_values(
        |o: Option<Supports>|
            match o {
                Some(s) => Some(supports_view(s)),
                None => None,
            },
    )
}

/// The mathematical value of the backings store.
spec fn backings_view(v: Vec<Option<Vec<(AccountId, PartialBackings)>>>) -> Seq<
    Option<Seq<(AccountId, PartialBackings)>>,
> {
    v@.map_values(
        |o: Option<Vec<(AccountId, PartialBackings)>>|
            match o {
                Some(s) => Some(s@),
                None => None,
            },
    )
}

/// A buffer of `n` empty pages.
fn empty_side_vec(n: usize) -> (r: Vec<Option<Supports>>)
    ensures
        side_view(r) == empty_side(n as int),
{
    let mut r: Vec<Option<Supports>> = Vec::new();
    let mut i: usize = 0;
    while i < n
        invariant
            i <= n,
            r@.len() == i,
            forall|j: int| 0 <= j < i ==> (#[trigger] r@[j]) is None,
        decreases n - i,
    {
        r.push(None);
        i = i + 1;
    }
    proof {
        assert(side_view(r) =~= empty_side(n as int));
    }
    r
}

/// A backings store of `n` empty pages.
fn empty_backings_vec(n: usize) -> (r: Vec<Option<Vec<(AccountId, PartialBackings)>>>)
    ensures
        backings_view(r) == empty_backings(n as int),
{
    let mut r: Vec<Option<Vec<(AccountId, PartialBackings)>>> = Vec::new();
    let mut i: usize = 0;
    while i < n
        invariant
            i <= n,
            r@.len() == i,
            forall|j: int| 0 <= j < i ==> (#[trigger] r@[j]) is None,
        decreases n - i,
    {
        r.push(None);
        i = i + 1;
    }
    proof {
        assert(backings_view(r) =~= empty_backings(n as int));
    }
    r
}

/// Clones of all present pages of one buffer, in ascending page order.
fn collect_present_pages(side: &Vec<Option<Supports>>) -> (r: Vec<(PageIndex, Supports)>)
    requires
        side@.len() <= u32::MAX,
    ensures
        r@.len() == count_some(side_view(*side)),
        forall|j: int|
            0 <= j < r@.len() ==> (#[trigger] r@[j]).0 < side_view(*side).len() && side_view(
                *side,
            )[r@[j].0 as int] == Some(supports_view(r@[j].1)),
{
    let mut r: Vec<(PageIndex, Supports)> = Vec::new();
    let mut p: usize = 0;
    while p < side.len()
        invariant
            p <= side.len(),
            side@.len() <= u32::MAX,
            r@.len() == count_some(side_view(*side).subrange(0, p as int)),
            forall|j: int|
                0 <= j < r@.len() ==> (#[trigger] r@[j]).0 < side_view(*side).len() && side_view(
                    *side,
                )[r@[j].0 as int] == Some(supports_view(r@[j].1)),
        decreases side.len() - p,
    {
        proof {
            assert(side_view(*side).subrange(0, p + 1).drop_last() =~= side_view(*side).subrange(
                0,
                p as int,
            ));
            assert(side_view(*side).subrange(0, p + 1).last() == side_view(*side)[p as int]);
        }
        match &side[p] {
            Some(s) => {
                r.push((p as PageIndex, duplicate_supports(s)));
            },
            None => {},
        }
        p = p + 1;
    }
    proof {
        assert(side_view(*side).subrange(0, side_view(*side).len() as int) =~= side_view(*side));
    }
    r
}

/// Fold one backing entry into the aggregate, exactly as [`add_backing`]
/// states it.
pub(crate) fn add_backing_exec(agg: &mut Vec<(AccountId, PartialBackings)>, who: AccountId, pb: PartialBackings)
    ensures
        final(agg)@ == add_backing(old(agg)@, who, pb),
{
    let mut k: usize = 0;
    while k < agg.len()
        invariant
            k <= agg.len(),
            agg@ == old(agg)@,
            forall|j: int| 0 <= j < k ==> (#[trigger] agg@[j]).0 != who,
        decreases agg.len() - k,
    {
        if agg[k].0 == who {
            proof {
                lemma_find_key(agg@, who);
                assert(find_key(agg@, who) == k as int);
            }
            let t = agg[k].1.total.saturating_add(pb.total);
            let b = agg[k].1.backers.saturating_add(pb.backers);
            agg.set(k, (who, PartialBackings { total: t, backers: b }));
            return ;
        }
        k = k + 1;
    }
    proof {
        lemma_find_key(agg@, who);
    }
    agg.push((who, pb));
}

impl QueuedSolution {
    /// An empty store covering `pages` pages, with `y` as the valid buffer.
    pub fn new(pages: usize) -> (r: QueuedSolution)
        ensures
            r@ == empty_queued(pages as int),
            q_wf(r@),
    {
        QueuedSolution {
            x: empty_side_vec(pages),
            y: empty_side_vec(pages),
            valid: ValidSolution::Y,
            backings: empty_backings_vec(pages),
            score: None,
        }
    }

    /// The number of pages the store covers.
    pub fn pages(&self) -> (r: usize)
        requires
            q_wf(self@),
        ensures
            r as int == q_pages(self@),
    {
        self.x.len()
    }

    /// The score of the queued solution, if one is queued.
    pub fn queued_solution(&self) -> (r: Option<ElectionScore>)
        ensures
            r == self@.score,
    {
        self.score
    }

    /// Erase everything.
    pub fn kill(&mut self)
        requires
            q_wf(old(self)@),
        ensures
            final(self)@ == empty_queued(q_pages(old(self)@)),
    {
        let n = self.x.len();
        self.x = empty_side_vec(n);
        self.y = empty_side_vec(n);
        self.valid = ValidSolution::Y;
        self.backings = empty_backings_vec(n);
        self.score = None;
    }

    /// Write one fully verified page into the invalid buffer and record its
    /// compressed backings.  The caller must have feasibility-checked
    /// `supports`; in particular no support may have more backers than fit
    /// in the backer counter.
    pub fn set_invalid_page(&mut self, page: PageIndex, supports: Supports)
        requires
            q_wf(old(self)@),
            (page as int) < q_pages(old(self)@),
            forall|j: int|
                0 <= j < supports_view(supports).len() ==> (#[trigger] supports_view(
                    supports,
                )[j]).1.voters.len() <= u32::MAX,
        ensures
            final(self)@ == set_invalid_page_v(old(self)@, page as int, supports_view(supports)),
            q_wf(final(self)@),
    {
        let ghost o = self@;
        let ghost sv = supports_view(supports);
        let mut compressed: Vec<(AccountId, PartialBackings)> = Vec::new();
        let mut i: usize = 0;
        while i < supports.len()
            invariant
                i <= supports.len(),
                compressed@.len() == i,
                forall|j: int| #![trigger compressed@[j]]
                    0 <= j < i ==> compressed@[j] == (
                        supports@[j].0,
                        PartialBackings {
                            total: supports@[j].1.total,
                            backers: supports@[j].1.voters@.len() as u32,
                        },
                    ),
            decreases supports.len() - i,
        {
            let who = supports[i].0;
            let total = supports[i].1.total;
            let backers = supports[i].1.voters.len() as u32;
            compressed.push((who, PartialBackings { total, backers }));
            i = i + 1;
        }
        proof {
            assert(compressed@ =~= compress_supports(sv));
        }
        let page_usize = page as usize;
        self.backings.set(page_usize, Some(compressed));
        match self.valid {
            ValidSolution::X => self.y.set(page_usize, Some(supports)),
            ValidSolution::Y => self.x.set(page_usize, Some(supports)),
        }
        proof {
            let target = set_invalid_page_v(o, page as int, sv);
            assert(self@.backings =~= target.backings);
            assert(self@.x =~= target.x);
            assert(self@.y =~= target.y);
            assert(self@ == target);
        }
    }

    /// Drop the invalid buffer and all backings; the valid buffer and the
    /// score stay untouched.
    pub fn clear_invalid(&mut self)
        requires
            q_wf(old(self)@),
        ensures
            final(self)@ == clear_invalid_v(old(self)@),
            q_wf(final(self)@),
    {
        let ghost o = self@;
        let n = self.x.len();
        match self.valid {
            ValidSolution::X => {
                self.y = empty_side_vec(n);
            },
            ValidSolution::Y => {
                self.x = empty_side_vec(n);
            },
        }
        let nb = self.backings.len();
        self.backings = empty_backings_vec(nb);
        proof {
            let target = clear_invalid_v(o);
            assert(self@.backings =~= target.backings);
            assert(self@.x =~= target.x);
            assert(self@.y =~= target.y);
            assert(self@ == target);
        }
    }

    /// Drop the valid buffer and its score; the invalid buffer and the
    /// backings stay untouched.
    pub fn clear_valid(&mut self)
        requires
            q_wf(old(self)@),
        ensures
            final(self)@ == clear_valid_v(old(self)@),
            q_wf(final(self)@),
    {
        let ghost o = self@;
        let n = self.x.len();
        match self.valid {
            ValidSolution::X => {
                self.x = empty_side_vec(n);
            },
            ValidSolution::Y => {
                self.y = empty_side_vec(n);
            },
        }
        self.score = None;
        proof {
            let target = clear_valid_v(o);
            assert(self@.x =~= target.x);
            assert(self@.y =~= target.y);
            assert(self@ == target);
        }
    }

    /// Commit a fully verified challenger: flip the pointer to it, store its
    /// score, drop all backings and drop the previously valid buffer.
    pub fn finalize_correct(&mut self, score: ElectionScore)
        requires
            q_wf(old(self)@),
        ensures
            final(self)@ == finalize_correct_v(old(self)@, score),
            q_wf(final(self)@),
    {
        let ghost o = self@;
        self.valid = self.valid.other();
        self.score = Some(score);
        let nb = self.backings.len();
        self.backings = empty_backings_vec(nb);
        let n = self.x.len();
        match self.valid {
            ValidSolution::X => {
                self.y = empty_side_vec(n);
            },
            ValidSolution::Y => {
                self.x = empty_side_vec(n);
            },
        }
        proof {
            let target = finalize_correct_v(o, score);
            assert(self@.backings =~= target.backings);
            assert(self@.x =~= target.x);
            assert(self@.y =~= target.y);
            assert(self@ == target);
        }
    }

    /// Write a whole solution into the valid buffer without verification,
    /// together with its claimed score.
    pub fn force_set_valid(&mut self, paged_supports: &Vec<Supports>, score: ElectionScore)
        requires
            q_wf(old(self)@),
            paged_supports@.len() == q_pages(old(self)@),
        ensures
            final(self)@ == force_set_valid_v(
                old(self)@,
                Seq::new(paged_supports@.len(), |i: int| supports_view(paged_supports@[i])),
                score,
            ),
            q_wf(final(self)@),
    {
        let ghost o = self@;
        let ghost pv = Seq::new(paged_supports@.len(), |i: int| supports_view(paged_supports@[i]));
        let mut p: usize = 0;
        while p < paged_supports.len()
            invariant
                p <= paged_supports.len(),
                q_wf(self@),
                paged_supports@.len() == q_pages(self@),
                self@.valid_x == o.valid_x,
                self@.score == o.score,
                self@.backings == o.backings,
                q_invalid(self@) == q_invalid(o),
                q_valid(self@).len() == q_valid(o).len(),
                forall|i: int|
                    0 <= i < p ==> #[trigger] q_valid(self@)[i] == Some(
                        supports_view(paged_supports@[i]),
                    ),
                forall|i: int|
                    p <= i < q_valid(self@).len() ==> #[trigger] q_valid(self@)[i] == q_valid(o)[i],
            decreases paged_supports.len() - p,
        {
            let ghost before = self@;
            let s = duplicate_supports(&paged_supports[p]);
            match self.valid {
                ValidSolution::X => self.x.set(p, Some(s)),
                ValidSolution::Y => self.y.set(p, Some(s)),
            }
            proof {
                assert(q_valid(self@) =~= q_valid(before).update(
                    p as int,
                    Some(supports_view(paged_supports@[p as int])),
                ));
                assert(q_invalid(self@) =~= q_invalid(before));
            }
            p = p + 1;
        }
        self.score = Some(score);
        proof {
            let target = force_set_valid_v(o, pv, score);
            assert(self@.x =~= target.x);
            assert(self@.y =~= target.y);
            assert(self@ == target);
        }
    }

    /// Clear the valid buffer, then install one page and a score directly.
    pub fn force_set_single_page_valid(
        &mut self,
        page: PageIndex,
        supports: Supports,
        score: ElectionScore,
    )
        requires
            q_wf(old(self)@),
            (page as int) < q_pages(old(self)@),
        ensures
            final(self)@ == force_set_single_page_valid_v(
                old(self)@,
                page as int,
                supports_view(supports),
                score,
            ),
            q_wf(final(self)@),
    {
        let ghost o = self@;
        let ghost sv = supports_view(supports);
        self.clear_valid();
        let page_usize = page as usize;
        match self.valid {
            ValidSolution::X => self.x.set(page_usize, Some(supports)),
            ValidSolution::Y => self.y.set(page_usize, Some(supports)),
        }
        self.score = Some(score);
        proof {
            let target = force_set_single_page_valid_v(o, page as int, sv, score);
            assert(self@.x =~= target.x);
            assert(self@.y =~= target.y);
            assert(self@ == target);
        }
    }

    /// Read one page of the queued (valid) solution.
    pub fn get_queued_solution_page(&self, page: PageIndex) -> (r: Option<Supports>)
        requires
            q_wf(self@),
        ensures
            match r {
                Some(s) => (page as int) < q_pages(self@) && q_valid(self@)[page as int] == Some(
                    supports_view(s),
                ),
                None => (page as int) >= q_pages(self@) || q_valid(self@)[page as int] is None,
            },
    {
        let page_usize = page as usize;
        if page_usize >= self.x.len() {
            return None;
        }
        let side = match self.valid {
            ValidSolution::X => &self.x,
            ValidSolution::Y => &self.y,
        };
        match &side[page_usize] {
            Some(s) => Some(duplicate_supports(s)),
            None => None,
        }
    }

    /// Read one page of the valid buffer; same as
    /// [`Self::get_queued_solution_page`].
    pub fn get_valid_page(&self, page: PageIndex) -> (r: Option<Supports>)
        requires
            q_wf(self@),
        ensures
            match r {
                Some(s) => (page as int) < q_pages(self@) && q_valid(self@)[page as int] == Some(
                    supports_view(s),
                ),
                None => (page as int) >= q_pages(self@) || q_valid(self@)[page as int] is None,
            },
    {
        self.get_queued_solution_page(page)
    }

    /// Read one page of the invalid buffer.
    pub fn get_invalid_page(&self, page: PageIndex) -> (r: Option<Supports>)
        requires
            q_wf(self@),
        ensures
            match r {
                Some(s) => (page as int) < q_pages(self@) && q_invalid(self@)[page as int] == Some(
                    supports_view(s),
                ),
                None => (page as int) >= q_pages(self@) || q_invalid(self@)[page as int] is None,
            },
    {
        let page_usize = page as usize;
        if page_usize >= self.x.len() {
            return None;
        }
        let side = match self.valid {
            ValidSolution::X => &self.y,
            ValidSolution::Y => &self.x,
        };
        match &side[page_usize] {
            Some(s) => Some(duplicate_supports(s)),
            None => None,
        }
    }

    /// All present pages of the valid buffer, in ascending page order.
    pub fn valid_iter(&self) -> (r: Vec<(PageIndex, Supports)>)
        requires
            q_wf(self@),
            q_pages(self@) <= u32::MAX,
        ensures
            r@.len() == count_some(q_valid(self@)),
            forall|j: int|
                0 <= j < r@.len() ==> (#[trigger] r@[j]).0 < q_valid(self@).len() && q_valid(
                    self@,
                )[r@[j].0 as int] == Some(supports_view(r@[j].1)),
    {
        let side = match self.valid {
            ValidSolution::X => &self.x,
            ValidSolution::Y => &self.y,
        };
        collect_present_pages(side)
    }

    /// All present pages of the invalid buffer, in ascending page order.
    pub fn invalid_iter(&self) -> (r: Vec<(PageIndex, Supports)>)
        requires
            q_wf(self@),
            q_pages(self@) <= u32::MAX,
        ensures
            r@.len() == count_some(q_invalid(self@)),
            forall|j: int|
                0 <= j < r@.len() ==> (#[trigger] r@[j]).0 < q_invalid(self@).len() && q_invalid(
                    self@,
                )[r@[j].0 as int] == Some(supports_view(r@[j].1)),
    {
        let side = match self.valid {
            ValidSolution::X => &self.y,
            ValidSolution::Y => &self.x,
        };
        collect_present_pages(side)
    }

    /// All present pages of the backings store, in ascending page order.
    pub fn backing_iter(&self) -> (r: Vec<(PageIndex, Vec<(AccountId, PartialBackings)>)>)
        requires
            q_wf(self@),
            q_pages(self@) <= u32::MAX,
        ensures
            r@.len() == count_some(self@.backings),
            forall|j: int|
                0 <= j < r@.len() ==> (#[trigger] r@[j]).0 < self@.backings.len()
                    && self@.backings[r@[j].0 as int] == Some(r@[j].1@),
    {
        let mut r: Vec<(PageIndex, Vec<(AccountId, PartialBackings)>)> = Vec::new();
        let mut p: usize = 0;
        while p < self.backings.len()
            invariant
                q_wf(self@),
                p <= self.backings.len(),
                self.backings@.len() <= u32::MAX,
                r@.len() == count_some(self@.backings.subrange(0, p as int)),
                forall|j: int|
                    0 <= j < r@.len() ==> (#[trigger] r@[j]).0 < self@.backings.len()
                        && self@.backings[r@[j].0 as int] == Some(r@[j].1@),
            decreases self.backings.len() - p,
        {
            proof {
                assert(self@.backings.subrange(0, p + 1).drop_last() =~= self@.backings.subrange(
                    0,
                    p as int,
                ));
                assert(self@.backings.subrange(0, p + 1).last() == self@.backings[p as int]);
            }
            match self.get_backing_page(p as PageIndex) {
                Some(s) => {
                    r.push((p as PageIndex, s));
                },
                None => {},
            }
            p = p + 1;
        }
        proof {
            assert(self@.backings.subrange(0, self@.backings.len() as int) =~= self@.backings);
        }
        r
    }

    /// Recompute the score of the solution assembled in the invalid buffer
    /// from its backings, together with its aggregate winner count, exactly
    /// as [`final_score_v`] states it.
    pub fn final_score(&self, max_backers: u32) -> (r: Result<
        (ElectionScore, u32),
        FeasibilityError,
    >)
        requires
            q_wf(self@),
        ensures
            r == final_score_v(self@, max_backers),
    {
        let n = self.backings.len();
        let mut p: usize = 0;
        while p < n
            invariant
                n == self.backings@.len(),
                p <= n,
                forall|i: int| 0 <= i < p ==> (#[trigger] self@.backings[i]) is Some,
            decreases n - p,
        {
            match &self.backings[p] {
                None => {
                    proof {
                        assert(self@.backings[p as int] is None);
                    }
                    return Err(FeasibilityError::Incomplete);
                },
                Some(_) => {
                    proof {
                        assert(self@.backings[p as int] is Some);
                    }
                },
            }
            p = p + 1;
        }
        let ghost pages_g = all_backing_pages(self@);
        let mut agg: Vec<(AccountId, PartialBackings)> = Vec::new();
        let mut p: usize = 0;
        while p < n
            invariant
                n == self.backings@.len(),
                p <= n,
                forall|i: int| 0 <= i < n ==> (#[trigger] self@.backings[i]) is Some,
                pages_g == all_backing_pages(self@),
                agg@ == fold_backing_pages(pages_g.subrange(0, p as int)),
            decreases n - p,
        {
            proof {
                assert(pages_g.subrange(0, p + 1).drop_last() =~= pages_g.subrange(0, p as int));
                assert(pages_g.subrange(0, p + 1).last() == pages_g[p as int]);
            }
            match &self.backings[p] {
                Some(page) => {
                    let ghost agg0 = agg@;
                    let mut j: usize = 0;
                    while j < page.len()
                        invariant
                            j <= page@.len(),
                            agg@ == fold_backing_page(agg0, page@.subrange(0, j as int)),
                        decreases page.len() - j,
                    {
                        proof {
                            assert(page@.subrange(0, j + 1).drop_last() =~= page@.subrange(
                                0,
                                j as int,
                            ));
                            assert(page@.subrange(0, j + 1).last() == page@[j as int]);
                        }
                        let (who, pb) = page[j];
                        add_backing_exec(&mut agg, who, pb);
                        j = j + 1;
                    }
                    proof {
                        assert(page@.subrange(0, page@.len() as int) =~= page@);
                        assert(pages_g[p as int] == page@);
                    }
                },
                None => {
                    // The completeness scan above found every page present.
                    proof {
                        assert(false);
                    }
                },
            }
            p = p + 1;
        }
        proof {
            assert(pages_g.subrange(0, n as int) =~= pages_g);
        }
        let mut k: usize = 0;
        while k < agg.len()
            invariant
                k <= agg@.len(),
                agg@ == fold_backing_pages(pages_g),
                pages_g == all_backing_pages(self@),
                forall|i: int| 0 <= i < n ==> (#[trigger] self@.backings[i]) is Some,
                n == self.backings@.len(),
                forall|i: int| 0 <= i < k ==> (#[trigger] agg@[i]).1.backers <= max_backers,
            decreases agg.len() - k,
        {
            if agg[k].1.backers > max_backers {
                return Err(FeasibilityError::TooManyBackings);
            }
            k = k + 1;
        }
        let score = evaluate_backings(&agg);
        let wc: u32 = if agg.len() > u32::MAX as usize {
            u32::MAX
        } else {
            agg.len() as u32
        };
        Ok((score, wc))
    }

    /// Read one page of the backings store.
    pub fn get_backing_page(&self, page: PageIndex) -> (r: Option<Vec<(AccountId, PartialBackings)>>)
        requires
            q_wf(self@),
        ensures
            match r {
                Some(s) => (page as int) < q_pages(self@) && self@.backings[page as int] == Some(s@),
                None => (page as int) >= q_pages(self@) || self@.backings[page as int] is None,
            },
    {
        let page_usize = page as usize;
        if page_usize >= self.backings.len() {
            return None;
        }
        match &self.backings[page_usize] {
            Some(s) => {
                let mut c: Vec<(AccountId, PartialBackings)> = Vec::new();
                let mut i: usize = 0;
                while i < s.len()
                    invariant
                        i <= s.len(),
                        c@ == s@.subrange(0, i as int),
                    decreases s.len() - i,
                {
                    c.push(s[i]);
                    proof {
                        assert(c@ =~= s@.subrange(0, i + 1));
                    }
                    i = i + 1;
                }
                proof {
                    assert(c@ =~= s@);
                }
                Some(c)
            },
            None => None,
        }
    }
}

} // verus!
