//! The scheduler: which ready task runs next, and where a task that stops
//! running waits.

use crate::queues::{
    after_pick, highest, holds, is_first_match, is_top, lemma_highest, next, outranked, put, without,
};
use crate::task::{in_range, same_task, valid_level_count, StatPrioTask};
use std::collections::VecDeque;
use std::sync::Arc;
use vstd::prelude::*;

verus! {

/// `N` first-in-first-out queues of ready tasks, one per priority level.
pub struct StatPrioScheduler<T, const N: usize> {
    ready_queues: Vec<VecDeque<Arc<StatPrioTask<T, N>>>>,
}

impl<T, const N: usize> View for StatPrioScheduler<T, N> {
    type V = Seq<Seq<Arc<StatPrioTask<T, N>>>>;

    /// The ready tasks by level, the oldest of each level first.
    closed spec fn view(&self) -> Self::V {
        Seq::new(self.ready_queues@.len(), |i: int| self.ready_queues@[i]@)
    }
}

impl<T, const N: usize> StatPrioScheduler<T, N> {
    /// Whether the queues of all `N` levels exist.
    pub open spec fn wf(&self) -> bool {
        self@.len() == N
    }

    /// A scheduler without queues; `init` gives it its `N` queues.
    pub fn new() -> (s: Self)
        requires
            valid_level_count(N),
        ensures
            s@.len() == 0,
    {
        Self { ready_queues: Vec::new() }
    }

    /// The name of the scheduling policy.
    pub fn scheduler_name() -> (name: &'static str)
        ensures
            name@ == "Static Priority"@,
    {
        "Static Priority"
    }

    /// Whether `init` has run.
    pub fn is_initialized(&self) -> (done: bool)
        ensures
            done == self.wf(),
    {
        self.ready_queues.len() == N
    }

    /// Creates the `N` queues, all empty.
    pub fn init(&mut self)
        requires
            old(self)@.len() == 0,
        ensures
            final(self).wf(),
            forall|p: int| 0 <= p < N ==> (#[trigger] final(self)@[p]).len() == 0,
    {
        let mut made: usize = 0;
        while made < N
            invariant
                made <= N,
                self.ready_queues@.len() == made,
                forall|p: int| 0 <= p < made ==> (#[trigger] self.ready_queues@[p])@.len() == 0,
            decreases N - made,
        {
            self.ready_queues.push(VecDeque::new());
            made = made + 1;
        }
    }

    /// Queues `task` at level `level`: at the front if `preempt`, else at the
    /// back.
    pub fn put_at(&mut self, task: Arc<StatPrioTask<T, N>>, level: usize, preempt: bool)
        requires
            old(self).wf(),
            level < N,
        ensures
            final(self)@ == put(old(self)@, level as int, task, preempt),
    {
        if preempt {
            self.ready_queues[level].push_front(task);
        } else {
            self.ready_queues[level].push_back(task);
        }
    }

    /// The most urgent level with a task ready, or `N` if no task is ready.
    pub fn highest_priority(&self) -> (level: usize)
        requires
            self.wf(),
        ensures
            level == highest(self@),
            is_top(self@, level as int),
    {
        let mut level: usize = 0;
        while level < N
            invariant
                self.wf(),
                level <= N,
                forall|p: int| 0 <= p < level ==> (#[trigger] self@[p]).len() == 0,
            decreases N - level,
        {
            if self.ready_queues[level].len() != 0 {
                proof {
                    assert(self@[level as int].len() > 0);
                    lemma_highest(self@);
                }
                return level;
            }
            level = level + 1;
        }
        proof {
            lemma_highest(self@);
        }
        N
    }

    /// Queues a task that stopped running, at the level it holds when the
    /// call reads it: at the front if it was preempted, else at the back.
    pub fn put_prev_task(&mut self, prev: Arc<StatPrioTask<T, N>>, preempt: bool)
        requires
            old(self).wf(),
        ensures
            exists|level: int|
                0 <= level < N && final(self)@ == #[trigger] put(
                    old(self)@,
                    level,
                    prev,
                    preempt,
                ),
    {
        let level: usize = prev.get_priority();
        self.put_at(prev, level, preempt);
    }

    /// Queues a task that became ready, at the back of the level it holds
    /// when the call reads it.
    pub fn add_task(&mut self, task: Arc<StatPrioTask<T, N>>)
        requires
            old(self).wf(),
        ensures
            exists|level: int|
                0 <= level < N && final(self)@ == #[trigger] put(old(self)@, level, task, false),
    {
        self.put_prev_task(task, false)
    }

    /// Takes out the first queued handle, by level and then front to back,
    /// that names the same task as `task`.
    pub fn remove_task(&mut self, task: &Arc<StatPrioTask<T, N>>) -> (removed: Option<
        Arc<StatPrioTask<T, N>>,
    >)
        requires
            old(self).wf(),
        ensures
            match removed {
                Some(handle) => exists|p: int, i: int|
                    {
                        &&& #[trigger] is_first_match(old(self)@, *task, p, i)
                        &&& handle == old(self)@[p][i]
                        &&& final(self)@ == without(old(self)@, p, i)
                    },
                None => !holds(old(self)@, *task) && final(self)@ == old(self)@,
            },
    {
        let mut priority: usize = 0;
        while priority < N
            invariant
                self.wf(),
                self@ == old(self)@,
                priority <= N,
                forall|p: int, i: int|
                    0 <= p < priority && 0 <= i < self@[p].len() ==> #[trigger] self@[p][i]
                        != *task,
            decreases N - priority,
        {
            let len: usize = self.ready_queues[priority].len();
            let mut index: usize = 0;
            while index < len
                invariant
                    self.wf(),
                    self@ == old(self)@,
                    priority < N,
                    len == self@[priority as int].len(),
                    index <= len,
                    forall|p: int, i: int|
                        0 <= p < priority && 0 <= i < self@[p].len() ==> #[trigger] self@[p][i]
                            != *task,
                    forall|i: int| 0 <= i < index ==> #[trigger] self@[priority as int][i] != *task,
                decreases len - index,
            {
                if same_task(&self.ready_queues[priority][index], task) {
                    proof {
                        assert(is_first_match(self@, *task, priority as int, index as int));
                    }
                    let removed = self.ready_queues[priority].remove(index);
                    return removed;
                }
                index = index + 1;
            }
            priority = priority + 1;
        }
        None
    }

    /// Takes out the task to run next: the oldest task of the most urgent
    /// level that has one.
    pub fn pick_next_task(&mut self) -> (picked: Option<Arc<StatPrioTask<T, N>>>)
        requires
            old(self).wf(),
        ensures
            picked == next(old(self)@),
            final(self)@ == after_pick(old(self)@),
    {
        let mut priority: usize = 0;
        while priority < N
            invariant
                self.wf(),
                self@ == old(self)@,
                priority <= N,
                forall|p: int| 0 <= p < priority ==> (#[trigger] self@[p]).len() == 0,
            decreases N - priority,
        {
            let front = self.ready_queues[priority].pop_front();
            if front.is_some() {
                proof {
                    lemma_highest(old(self)@);
                    assert(is_top(old(self)@, priority as int));
                }
                return front;
            }
            proof {
                assert(self@ == old(self)@);
            }
            priority = priority + 1;
        }
        proof {
            lemma_highest(old(self)@);
            assert(is_top(old(self)@, N as int));
        }
        None
    }

    /// Whether a task ready now is more urgent than level `level`.
    pub fn preempts(&self, level: usize) -> (sooner: bool)
        requires
            self.wf(),
        ensures
            sooner == outranked(self@, level as int),
    {
        self.highest_priority() < level
    }

    /// Whether the running task should give way now: whether a task is ready
    /// at a level more urgent than the one `current` holds when the call
    /// reads it.
    pub fn task_tick(&mut self, current: &Arc<StatPrioTask<T, N>>) -> (reschedule: bool)
        requires
            old(self).wf(),
        ensures
            final(self)@ == old(self)@,
            exists|level: int|
                0 <= level < N && reschedule == #[trigger] outranked(old(self)@, level),
    {
        let level: usize = current.get_priority();
        self.preempts(level)
    }

    /// Asks `task` to move to level `prio`. A task that is queued stays in
    /// the queue it is in.
    pub fn set_priority(&mut self, task: &Arc<StatPrioTask<T, N>>, prio: isize) -> (accepted: bool)
        ensures
            accepted == in_range(prio, N),
            final(self)@ == old(self)@,
    {
        task.set_priority(prio)
    }
}

} // verus!
