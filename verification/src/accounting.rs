//! Bookkeeping law of the frame allocator: the allocated frames are exactly
//! the frames of the allocations that were made and not yet freed.

use vstd::prelude::*;
use vstd::set_lib::{lemma_int_range, lemma_len_difference, lemma_len_subset, set_int_range};
use crate::frame::{frame_run, FrameSpace};

verus! {

/// One outstanding allocation: `count` frames from `start` on.
pub struct Run {
    pub start: int,
    pub count: int,
}

impl Run {
    /// The frames of the run.
    pub open spec fn frames(self) -> Set<int> {
        frame_run(self.start, self.count)
    }
}

/// The frames that belong to some run of `ledger`.
pub open spec fn covered(ledger: Seq<Run>) -> Set<int> {
    Set::new(|i: int| exists|k: int| 0 <= k < ledger.len() && #[trigger] ledger[k].frames().contains(i))
}

/// No frame belongs to two runs of `ledger`.
pub open spec fn pairwise_disjoint(ledger: Seq<Run>) -> bool {
    forall|j: int, k: int|
        0 <= j < k < ledger.len() ==> (#[trigger] ledger[j]).frames().disjoint(
            (#[trigger] ledger[k]).frames(),
        )
}

/// `ledger` lists the outstanding allocations of `space`: its runs do not
/// overlap, and together they are exactly the allocated frames.
pub open spec fn accounts_for(ledger: Seq<Run>, space: FrameSpace) -> bool {
    &&& pairwise_disjoint(ledger)
    &&& space.allocated == covered(ledger)
}

/// A call made to the allocator.
pub enum Request {
    /// `allocate(count)`.
    Allocate { count: nat },
    /// `free` of the outstanding allocation at position `entry` of the ledger.
    Free { entry: int },
}

/// State and ledger after `request` was served.
pub open spec fn serve(space: FrameSpace, ledger: Seq<Run>, request: Request) -> (
    FrameSpace,
    Seq<Run>,
) {
    match request {
        Request::Allocate { count } => match space.first_fit(count as int) {
            Some(start) => (
                space.mark(start, count as int),
                ledger.push(Run { start, count: count as int }),
            ),
            None => (space, ledger),
        },
        Request::Free { entry } => if 0 <= entry < ledger.len() {
            (space.release(ledger[entry].start, ledger[entry].count), ledger.remove(entry))
        } else {
            (space, ledger)
        },
    }
}

/// State and ledger after all of `requests` were served in order.
pub open spec fn serve_all(space: FrameSpace, ledger: Seq<Run>, requests: Seq<Request>) -> (
    FrameSpace,
    Seq<Run>,
)
    decreases requests.len(),
{
    if requests.len() == 0 {
        (space, ledger)
    } else {
        let (next_space, next_ledger) = serve(space, ledger, requests[0]);
        serve_all(next_space, next_ledger, requests.subrange(1, requests.len() as int))
    }
}

/// What `allocate` returns is determined by the state: a frame is the first
/// fit exactly when `first_fit` names it, and no run fits exactly when
/// `first_fit` names none.
pub proof fn lemma_first_fit(space: FrameSpace, count: int)
    requires
        0 <= count,
    ensures
        forall|s: int| space.is_first_fit(s, count) <==> space.first_fit(count) == Some(s),
        space.exhausted(count) <==> space.first_fit(count) is None,
{
    assert forall|s: int| space.is_first_fit(s, count) implies space.first_fit(count) == Some(
        s,
    ) by {
        let c = choose|c: int| space.is_first_fit(c, count);
        assert(space.is_first_fit(c, count));
        if c < s {
            assert(!space.fits(c, count));
        }
        if s < c {
            assert(!space.fits(s, count));
        }
    }
    if !space.exhausted(count) {
        let t = choose|t: int| space.fits(t, count);
        lemma_least_fit(space, count, t);
    }
}

/// If a run of `count` frames fits at `t`, some frame at or below `t` is the
/// first fit.
proof fn lemma_least_fit(space: FrameSpace, count: int, t: int)
    requires
        space.fits(t, count),
    ensures
        exists|s: int| space.is_first_fit(s, count),
    decreases t - space.begin,
{
    if exists|u: int| u < t && space.fits(u, count) {
        let u = choose|u: int| u < t && space.fits(u, count);
        lemma_least_fit(space, count, u);
    } else {
        assert(space.is_first_fit(t, count));
    }
}

/// A successful `allocate` keeps the books: the new run overlaps no
/// outstanding one, and with it the ledger again accounts for every
/// allocated frame.
pub proof fn lemma_allocate_accounted(space: FrameSpace, ledger: Seq<Run>, start: int, count: int)
    requires
        accounts_for(ledger, space),
        space.fits(start, count),
    ensures
        accounts_for(ledger.push(Run { start, count }), space.mark(start, count)),
{
    let run = Run { start, count };
    let after = ledger.push(run);
    assert forall|j: int, k: int| 0 <= j < k < after.len() implies (#[trigger] after[j]).frames().disjoint(
        (#[trigger] after[k]).frames(),
    ) by {
        if k == ledger.len() {
            assert forall|i: int| !(after[j].frames().contains(i) && run.frames().contains(i)) by {
                if ledger[j].frames().contains(i) {
                    assert(covered(ledger).contains(i));
                }
            }
        } else {
            assert(after[j] == ledger[j]);
            assert(after[k] == ledger[k]);
        }
    }
    assert forall|i: int| covered(after).contains(i) == space.mark(start, count).allocated.contains(
        i,
    ) by {
        if covered(after).contains(i) {
            let k = choose|k: int| 0 <= k < after.len() && #[trigger] after[k].frames().contains(i);
            if k < ledger.len() {
                assert(ledger[k].frames().contains(i));
                assert(covered(ledger).contains(i));
            }
        }
        if space.allocated.contains(i) {
            let k = choose|k: int| 0 <= k < ledger.len() && #[trigger] ledger[k].frames().contains(i);
            assert(after[k].frames().contains(i));
        }
        if run.frames().contains(i) {
            assert(after[ledger.len() as int].frames().contains(i));
        }
    }
    assert(covered(after) =~= space.mark(start, count).allocated);
}

/// Freeing an outstanding allocation keeps the books: exactly its frames
/// become free, and the rest of the ledger accounts for what stays
/// allocated.
pub proof fn lemma_free_accounted(space: FrameSpace, ledger: Seq<Run>, entry: int)
    requires
        accounts_for(ledger, space),
        0 <= entry < ledger.len(),
    ensures
        accounts_for(
            ledger.remove(entry),
            space.release(ledger[entry].start, ledger[entry].count),
        ),
{
    let run = ledger[entry];
    let after = ledger.remove(entry);
    let released = space.release(run.start, run.count);
    assert forall|j: int, k: int| 0 <= j < k < after.len() implies (#[trigger] after[j]).frames().disjoint(
        (#[trigger] after[k]).frames(),
    ) by {
        let jj = if j < entry { j } else { j + 1 };
        let kk = if k < entry { k } else { k + 1 };
        assert(after[j] == ledger[jj]);
        assert(after[k] == ledger[kk]);
    }
    assert forall|i: int| covered(after).contains(i) == released.allocated.contains(i) by {
        if covered(after).contains(i) {
            let k = choose|k: int| 0 <= k < after.len() && #[trigger] after[k].frames().contains(i);
            let kk = if k < entry { k } else { k + 1 };
            assert(after[k] == ledger[kk]);
            assert(ledger[kk].frames().contains(i));
            assert(covered(ledger).contains(i));
            if kk < entry {
                assert(ledger[kk].frames().disjoint(ledger[entry].frames()));
            } else {
                assert(ledger[entry].frames().disjoint(ledger[kk].frames()));
            }
        }
        if released.allocated.contains(i) {
            let k = choose|k: int| 0 <= k < ledger.len() && #[trigger] ledger[k].frames().contains(i);
            assert(k != entry);
            let kk = if k < entry { k } else { k - 1 };
            assert(after[kk] == ledger[k]);
            assert(after[kk].frames().contains(i));
        }
    }
    assert(covered(after) =~= released.allocated);
}

/// Whatever calls are served, in whatever order, the allocated frames stay
/// exactly the frames of the allocations not yet freed, and no two of those
/// allocations overlap.
pub proof fn lemma_always_accounted(space: FrameSpace, ledger: Seq<Run>, requests: Seq<Request>)
    requires
        accounts_for(ledger, space),
    ensures
        accounts_for(serve_all(space, ledger, requests).1, serve_all(space, ledger, requests).0),
    decreases requests.len(),
{
    if requests.len() > 0 {
        let (next_space, next_ledger) = serve(space, ledger, requests[0]);
        match requests[0] {
            Request::Allocate { count } => {
                lemma_first_fit(space, count as int);
                match space.first_fit(count as int) {
                    Some(start) => {
                        assert(space.is_first_fit(start, count as int));
                        lemma_allocate_accounted(space, ledger, start, count as int);
                    },
                    None => {},
                }
            },
            Request::Free { entry } => {
                if 0 <= entry < ledger.len() {
                    lemma_free_accounted(space, ledger, entry);
                }
            },
        }
        lemma_always_accounted(
            next_space,
            next_ledger,
            requests.subrange(1, requests.len() as int),
        );
    }
}

/// The free frames inside the allocation range.
pub open spec fn free_frames(space: FrameSpace) -> Set<int> {
    set_int_range(space.begin, space.end).difference(space.allocated)
}

/// A request for more frames than are free inside the allocation range
/// cannot be met: no run of that length fits.
pub proof fn lemma_exhausted_when_too_few_free(space: FrameSpace, count: int)
    requires
        count > free_frames(space).len(),
    ensures
        space.exhausted(count),
{
    assert forall|t: int| !space.fits(t, count) by {
        if space.fits(t, count) {
            lemma_int_range(space.begin, space.end);
            lemma_len_difference(set_int_range(space.begin, space.end), space.allocated);
            lemma_int_range(t, t + count);
            assert(frame_run(t, count).subset_of(free_frames(space)));
            lemma_len_subset(frame_run(t, count), free_frames(space));
        }
    }
}

/// With nothing allocated, the empty ledger keeps the books.
pub proof fn lemma_empty_accounted(space: FrameSpace)
    requires
        space.allocated == Set::<int>::empty(),
    ensures
        accounts_for(Seq::<Run>::empty(), space),
{
    assert(covered(Seq::<Run>::empty()) =~= Set::<int>::empty());
}

} // verus!
