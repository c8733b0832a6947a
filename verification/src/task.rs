//! A task payload tagged with a priority level that can be changed through a
//! shared handle.

use core::sync::atomic::{AtomicUsize, Ordering};
use std::sync::Arc;
use vstd::prelude::*;

verus! {

/// Whether `n` can serve as a number of priority levels: at least one level,
/// and every level representable as a non-negative `isize`.
pub open spec fn valid_level_count(n: usize) -> bool {
    0 < n && n <= isize::MAX + 1
}

/// Whether a requested priority names one of the `n` levels.
pub open spec fn in_range(prio: isize, n: usize) -> bool {
    0 <= prio && prio < n
}

/// The level a request names, if it names one of the `n` levels.
pub fn checked_level(prio: isize, n: usize) -> (level: Option<usize>)
    ensures
        level == (if in_range(prio, n) {
            Some(prio as usize)
        } else {
            None
        }),
{
    if prio >= 0 && (prio as usize) < n {
        Some(prio as usize)
    } else {
        None
    }
}

/// The level that a stored value stands for among `n` levels: the value
/// itself if it names a level, else the least urgent level.
pub fn level_within(stored: usize, n: usize) -> (level: usize)
    requires
        0 < n,
    ensures
        stored < n ==> level == stored,
        stored >= n ==> level == n - 1,
{
    if stored < n {
        stored
    } else {
        n - 1
    }
}

/// A payload together with its priority level, one of `0..N` with 0 the most
/// urgent.
pub struct StatPrioTask<T, const N: usize> {
    inner: T,
    priority: AtomicUsize,
}

impl<T, const N: usize> StatPrioTask<T, N> {
    #[verifier::type_invariant]
    spec fn wf(self) -> bool {
        valid_level_count(N)
    }

    /// The payload that the task carries.
    pub closed spec fn payload(self) -> T {
        self.inner
    }

    /// Wraps `inner` as a task at level 1, one below the most urgent, or at
    /// level 0 when that is the only level.
    pub fn new(inner: T) -> (task: Self)
        requires
            valid_level_count(N),
        ensures
            task.payload() == inner,
    {
        let initial: usize = if N > 1 { 1 } else { 0 };
        Self { inner, priority: AtomicUsize::new(initial) }
    }

    /// The payload, borrowed.
    pub fn inner(&self) -> (payload: &T)
        ensures
            *payload == self.payload(),
    {
        &self.inner
    }

    /// Moves the task to level `prio` if that is one of the `N` levels, and
    /// reports whether it is. A request outside the levels stores nothing.
    /// The level lives in an atomic cell shared by every handle to the task,
    /// so the contract speaks of the answer only, not of the cell.
    pub fn set_priority(&self, prio: isize) -> (accepted: bool)
        ensures
            accepted == in_range(prio, N),
    {
        match checked_level(prio, N) {
            Some(level) => {
                self.priority.store(level, Ordering::Release);
                true
            },
            None => false,
        }
    }

    /// The level that the task holds at the moment of the call. Any handle
    /// to the task may change the level between two calls, so the contract
    /// promises a level and not which one. Only valid levels are ever
    /// stored; as the cell's content is not part of what is proved, the
    /// value read goes through `level_within` once more.
    pub fn get_priority(&self) -> (level: usize)
        ensures
            level < N,
    {
        proof {
            use_type_invariant(self);
        }
        level_within(self.priority.load(Ordering::Acquire), N)
    }
}

/// Whether two handles name one task. Calls `Arc::ptr_eq`, which is true
/// exactly when both handles point to the same allocation.
///
/// Not proved: that this is equality of the handles in contracts. It rests
/// on how a task is modelled there. A task holds its priority cell, which
/// can be neither copied nor cloned, and in contracts an atomic cell is an
/// opaque value that stands for the cell itself, never for the level stored
/// in it. So two handles to one task are equal there, and handles to two
/// tasks differ in their cells, whatever payload and level the tasks hold.
#[verifier::external_body]
pub(crate) fn same_task<T, const N: usize>(
    a: &Arc<StatPrioTask<T, N>>,
    b: &Arc<StatPrioTask<T, N>>,
) -> (same: bool)
    ensures
        same == (a == b),
{
    Arc::ptr_eq(a, b)
}

} // verus!
