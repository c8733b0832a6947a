//! What the scheduling order guarantees, stated over the queues as
//! sequences and proved from their definitions.

use crate::queues::{
    after_pick, highest, holds, holds_at, is_first_match, is_top, lemma_highest, next, outranked,
    put, scanned_before, without,
};
use vstd::prelude::*;

verus! {

/// The queues after the tasks of `ts` joined the back of level `level`, one
/// after the other.
pub open spec fn put_all<A>(q: Seq<Seq<A>>, level: int, ts: Seq<A>) -> Seq<Seq<A>>
    decreases ts.len(),
{
    if ts.len() == 0 {
        q
    } else {
        put(put_all(q, level, ts.drop_last()), level, ts.last(), false)
    }
}

/// The tasks that up to `n` picks in a row hand out, in the order they come.
pub open spec fn drain<A>(q: Seq<Seq<A>>, n: nat) -> Seq<A>
    decreases n,
{
    if n == 0 {
        Seq::empty()
    } else {
        match next(q) {
            Some(t) => seq![t] + drain(after_pick(q), (n - 1) as nat),
            None => Seq::empty(),
        }
    }
}

/// Whether no task is ready at a level more urgent than `level`.
pub open spec fn quiet_above<A>(q: Seq<Seq<A>>, level: int) -> bool {
    forall|p: int| 0 <= p < level && p < q.len() ==> (#[trigger] q[p]).len() == 0
}

/// Tasks added one by one at one level all join that level's queue, in the
/// order they were added, behind the tasks that waited there.
pub proof fn law_put_all_appends<A>(q: Seq<Seq<A>>, level: int, ts: Seq<A>)
    requires
        0 <= level < q.len(),
    ensures
        put_all(q, level, ts) == q.update(level, q[level] + ts),
    decreases ts.len(),
{
    if ts.len() == 0 {
        assert(q[level] + ts == q[level]);
        assert(q.update(level, q[level]) == q);
    } else {
        law_put_all_appends(q, level, ts.drop_last());
        assert((q[level] + ts.drop_last()).push(ts.last()) == q[level] + ts);
    }
}

/// While no more urgent task is ready, as many picks as a level holds tasks
/// hand out that level's tasks from the front to the back, and leave the
/// level empty.
pub proof fn law_level_drains_in_order<A>(q: Seq<Seq<A>>, level: int)
    requires
        0 <= level < q.len(),
        quiet_above(q, level),
    ensures
        drain(q, q[level].len()) == q[level],
    decreases q[level].len(),
{
    let s = q[level];
    if s.len() > 0 {
        lemma_highest(q);
        assert(is_top(q, level));
        let rest = after_pick(q);
        assert(rest == q.update(level, s.drop_first()));
        assert(quiet_above(rest, level));
        law_level_drains_in_order(rest, level);
        assert(seq![s[0]] + s.drop_first() == s);
    }
}

/// First in, first out: tasks added at one level are picked in the order
/// they were added, after the tasks that already waited at that level,
/// whenever no more urgent task is ready.
pub proof fn law_fifo<A>(q: Seq<Seq<A>>, level: int, ts: Seq<A>)
    requires
        0 <= level < q.len(),
        quiet_above(q, level),
    ensures
        drain(put_all(q, level, ts), q[level].len() + ts.len()) == q[level] + ts,
{
    law_put_all_appends(q, level, ts);
    let filled = put_all(q, level, ts);
    assert(quiet_above(filled, level));
    law_level_drains_in_order(filled, level);
}

/// A more urgent task goes first: while `a` is ready at a level more urgent
/// than the one `b` waits at, a pick leaves `b` where it is, and either
/// hands out `a` or leaves `a` ready.
pub proof fn law_urgent_first<A>(q: Seq<Seq<A>>, a: A, pa: int, ia: int, b: A, pb: int, ib: int)
    requires
        holds_at(q, a, pa, ia),
        holds_at(q, b, pb, ib),
        pa < pb,
    ensures
        highest(q) <= pa,
        holds_at(after_pick(q), b, pb, ib),
        highest(q) == pa && ia == 0 ==> next(q) == Some(a),
        !(highest(q) == pa && ia == 0) ==> holds(after_pick(q), a),
{
    lemma_highest(q);
    let top = highest(q);
    if top > pa {
        assert(q[pa].len() == 0);
    }
    if top < pa {
        assert(holds_at(after_pick(q), a, pa, ia));
    } else if ia > 0 {
        assert(holds_at(after_pick(q), a, pa, ia - 1));
    }
}

/// The order in which two tasks of different levels were queued does not
/// matter: the queues are the same either way, and with nothing else ready
/// at the more urgent task's level or above, that task is picked first.
pub proof fn law_insertion_order_is_irrelevant<A>(
    q: Seq<Seq<A>>,
    pa: int,
    a: A,
    a_preempted: bool,
    pb: int,
    b: A,
    b_preempted: bool,
)
    requires
        0 <= pa < pb < q.len(),
    ensures
        put(put(q, pa, a, a_preempted), pb, b, b_preempted) == put(
            put(q, pb, b, b_preempted),
            pa,
            a,
            a_preempted,
        ),
        quiet_above(q, pa + 1) ==> next(put(put(q, pa, a, a_preempted), pb, b, b_preempted))
            == Some(a),
{
    let ab = put(put(q, pa, a, a_preempted), pb, b, b_preempted);
    let ba = put(put(q, pb, b, b_preempted), pa, a, a_preempted);
    assert(ab =~= ba);
    if quiet_above(q, pa + 1) {
        lemma_highest(ab);
        assert(q[pa].len() == 0);
        assert(ab[pa].len() == 1);
        assert(is_top(ab, pa));
    }
}

/// A preempted task waits at the front of its level: every task that waited
/// there moves one place back, and with no more urgent task ready the next
/// pick hands the preempted task out and leaves the queues as they were
/// before it was queued.
pub proof fn law_preempted_runs_first<A>(q: Seq<Seq<A>>, level: int, t: A)
    requires
        0 <= level < q.len(),
    ensures
        put(q, level, t, true)[level][0] == t,
        put(q, level, t, true)[level].len() == q[level].len() + 1,
        forall|i: int|
            0 <= i < q[level].len() ==> put(q, level, t, true)[level][i + 1] == q[level][i],
        forall|p: int| 0 <= p < q.len() && p != level ==> put(q, level, t, true)[p] == q[p],
        quiet_above(q, level) ==> next(put(q, level, t, true)) == Some(t),
        quiet_above(q, level) ==> after_pick(put(q, level, t, true)) == q,
{
    let after = put(q, level, t, true);
    if quiet_above(q, level) {
        lemma_highest(after);
        assert(is_top(after, level));
        assert(after[level].drop_first() == q[level]);
        assert(after_pick(after) =~= q);
    }
}

/// A task that yields waits at the back of its level: every task that
/// waited there keeps its place ahead of it, and no other level changes.
pub proof fn law_yielding_waits_last<A>(q: Seq<Seq<A>>, level: int, t: A)
    requires
        0 <= level < q.len(),
    ensures
        put(q, level, t, false)[level].len() == q[level].len() + 1,
        put(q, level, t, false)[level].last() == t,
        forall|i: int|
            0 <= i < q[level].len() ==> put(q, level, t, false)[level][i] == q[level][i],
        forall|p: int| 0 <= p < q.len() && p != level ==> put(q, level, t, false)[p] == q[p],
{
}

/// The running task gives way exactly when some task is ready at a level
/// more urgent than its own; never when nothing is ready.
pub proof fn law_tick_sees_more_urgent<A>(q: Seq<Seq<A>>, level: int)
    requires
        0 <= level <= q.len(),
    ensures
        outranked(q, level) <==> exists|p: int| 0 <= p < level && (#[trigger] q[p]).len() > 0,
        highest(q) == q.len() ==> !outranked(q, level),
{
    lemma_highest(q);
    let top = highest(q);
    if outranked(q, level) {
        assert(0 <= top < level && q[top].len() > 0);
    }
    if exists|p: int| 0 <= p < level && (#[trigger] q[p]).len() > 0 {
        let p = choose|p: int| 0 <= p < level && (#[trigger] q[p]).len() > 0;
        if top > p {
            assert(q[p].len() == 0);
        }
    }
}

/// A pick comes back empty-handed exactly when no task is ready at any
/// level, and then changes nothing.
pub proof fn law_nothing_ready_nothing_picked<A>(q: Seq<Seq<A>>)
    ensures
        next(q) is None <==> forall|p: int| 0 <= p < q.len() ==> (#[trigger] q[p]).len() == 0,
        next(q) is None ==> after_pick(q) == q,
        next(q) is None <==> highest(q) == q.len(),
{
    lemma_highest(q);
    let top = highest(q);
    if top < q.len() {
        assert(q[top].len() > 0);
    }
}

/// A task that is ready has exactly one first position in scan order.
pub proof fn law_first_match_is_unique<A>(q: Seq<Seq<A>>, t: A, p1: int, i1: int, p2: int, i2: int)
    requires
        is_first_match(q, t, p1, i1),
        is_first_match(q, t, p2, i2),
    ensures
        p1 == p2,
        i1 == i2,
{
    assert(holds_at(q, t, p1, i1));
    assert(holds_at(q, t, p2, i2));
    assert(!scanned_before(p1, i1, p2, i2));
    assert(!scanned_before(p2, i2, p1, i1));
}

/// Taking a task out removes that one occurrence and nothing else: the
/// tasks ahead of it keep their places, the tasks behind it move one place
/// forward in the same order, and no other level changes.
pub proof fn law_removal_keeps_order<A>(q: Seq<Seq<A>>, p: int, i: int)
    requires
        0 <= p < q.len(),
        0 <= i < q[p].len(),
    ensures
        without(q, p, i).len() == q.len(),
        without(q, p, i)[p].len() == q[p].len() - 1,
        forall|j: int| 0 <= j < i ==> without(q, p, i)[p][j] == q[p][j],
        forall|j: int| i <= j < q[p].len() - 1 ==> without(q, p, i)[p][j] == q[p][j + 1],
        forall|r: int| 0 <= r < q.len() && r != p ==> without(q, p, i)[r] == q[r],
{
}

/// A task that is not ready is found at no position, so a removal of it
/// changes nothing; a task that is ready has a first position.
pub proof fn law_ready_task_is_found<A>(q: Seq<Seq<A>>, t: A)
    ensures
        holds(q, t) <==> exists|p: int, i: int| is_first_match(q, t, p, i),
{
    if holds(q, t) {
        let (p, i) = choose|p: int, i: int| holds_at(q, t, p, i);
        lemma_first_match_from(q, t, p, i);
    }
    if exists|p: int, i: int| is_first_match(q, t, p, i) {
        let (p, i) = choose|p: int, i: int| is_first_match(q, t, p, i);
        assert(holds_at(q, t, p, i));
    }
}

proof fn lemma_first_match_in_level<A>(q: Seq<Seq<A>>, t: A, p: int, i: int)
    requires
        holds_at(q, t, p, i),
        forall|p2: int, i2: int| #[trigger] holds_at(q, t, p2, i2) ==> p <= p2,
    ensures
        exists|i0: int| is_first_match(q, t, p, i0),
    decreases i,
{
    if exists|i2: int| holds_at(q, t, p, i2) && i2 < i {
        let i2 = choose|i2: int| holds_at(q, t, p, i2) && i2 < i;
        lemma_first_match_in_level(q, t, p, i2);
    } else {
        assert(is_first_match(q, t, p, i));
    }
}

proof fn lemma_first_match_from<A>(q: Seq<Seq<A>>, t: A, p: int, i: int)
    requires
        holds_at(q, t, p, i),
    ensures
        exists|p0: int, i0: int| is_first_match(q, t, p0, i0),
    decreases p,
{
    if exists|p2: int, i2: int| holds_at(q, t, p2, i2) && p2 < p {
        let (p2, i2) = choose|p2: int, i2: int| holds_at(q, t, p2, i2) && p2 < p;
        lemma_first_match_from(q, t, p2, i2);
    } else {
        lemma_first_match_in_level(q, t, p, i);
    }
}

} // verus!
