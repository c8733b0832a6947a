//! The ready queues as mathematical sequences: one sequence of tasks per
//! priority level, level 0 first, the oldest task of a level at index 0.

use vstd::prelude::*;

verus! {

/// Whether `h` is the first level of `q` with a task ready, or the number of
/// levels when no task is ready.
pub open spec fn is_top<A>(q: Seq<Seq<A>>, h: int) -> bool {
    &&& 0 <= h <= q.len()
    &&& forall|i: int| 0 <= i < h ==> (#[trigger] q[i]).len() == 0
    &&& h < q.len() ==> q[h].len() > 0
}

/// The most urgent level with a task ready; `q.len()` when none is.
pub open spec fn highest<A>(q: Seq<Seq<A>>) -> int {
    choose|h: int| is_top(q, h)
}

/// Whether a task is ready at a level more urgent than `level`.
pub open spec fn outranked<A>(q: Seq<Seq<A>>, level: int) -> bool {
    highest(q) < level
}

/// The queues after `t` joined level `level`: at the front when it was
/// preempted, at the back otherwise.
pub open spec fn put<A>(q: Seq<Seq<A>>, level: int, t: A, preempt: bool) -> Seq<Seq<A>> {
    q.update(
        level,
        if preempt {
            seq![t] + q[level]
        } else {
            q[level].push(t)
        },
    )
}

/// The task that is served next: the oldest one of the most urgent level
/// that has any.
pub open spec fn next<A>(q: Seq<Seq<A>>) -> Option<A> {
    if highest(q) < q.len() {
        Some(q[highest(q)][0])
    } else {
        None
    }
}

/// The queues after the next task was taken out.
pub open spec fn after_pick<A>(q: Seq<Seq<A>>) -> Seq<Seq<A>> {
    if highest(q) < q.len() {
        q.update(highest(q), q[highest(q)].drop_first())
    } else {
        q
    }
}

/// Whether `t` sits at index `i` of level `p`.
pub open spec fn holds_at<A>(q: Seq<Seq<A>>, t: A, p: int, i: int) -> bool {
    &&& 0 <= p < q.len()
    &&& 0 <= i < q[p].len()
    &&& q[p][i] == t
}

/// Whether `t` is ready at some level.
pub open spec fn holds<A>(q: Seq<Seq<A>>, t: A) -> bool {
    exists|p: int, i: int| holds_at(q, t, p, i)
}

/// Whether a scan by level, and front to back within a level, reaches
/// position `(p1, i1)` before `(p2, i2)`.
pub open spec fn scanned_before(p1: int, i1: int, p2: int, i2: int) -> bool {
    p1 < p2 || (p1 == p2 && i1 < i2)
}

/// Whether `(p, i)` is the first position, in scan order, at which `t` sits.
pub open spec fn is_first_match<A>(q: Seq<Seq<A>>, t: A, p: int, i: int) -> bool {
    &&& holds_at(q, t, p, i)
    &&& forall|p2: int, i2: int| #[trigger]
        holds_at(q, t, p2, i2) ==> !scanned_before(p2, i2, p, i)
}

/// The queues after the task at index `i` of level `p` was taken out.
pub open spec fn without<A>(q: Seq<Seq<A>>, p: int, i: int) -> Seq<Seq<A>> {
    q.update(p, q[p].remove(i))
}

proof fn lemma_top_from<A>(q: Seq<Seq<A>>, k: int)
    requires
        0 <= k <= q.len(),
        forall|i: int| 0 <= i < k ==> (#[trigger] q[i]).len() == 0,
    ensures
        exists|h: int| is_top(q, h),
    decreases q.len() - k,
{
    if k < q.len() && q[k].len() == 0 {
        lemma_top_from(q, k + 1);
    } else {
        assert(is_top(q, k));
    }
}

/// Exactly one value is the top of given queues, and `highest` names it.
pub proof fn lemma_highest<A>(q: Seq<Seq<A>>)
    ensures
        is_top(q, highest(q)),
        forall|h: int| is_top(q, h) ==> h == highest(q),
{
    lemma_top_from(q, 0);
    let top = highest(q);
    assert forall|h: int| is_top(q, h) implies h == top by {
        if h < top {
            assert(q[h].len() == 0);
        } else if top < h {
            assert(q[top].len() == 0);
        }
    }
}

} // verus!
