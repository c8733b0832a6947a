//! A fixed-priority task scheduler: `N` first-in-first-out ready queues, one
//! per priority level, with level 0 served first.

pub mod laws;
pub mod queues;
pub mod scheduler;
pub mod task;

pub use scheduler::StatPrioScheduler;
pub use task::StatPrioTask;
