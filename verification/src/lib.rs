//! The dispatch core of a fixed-size worker pool.
//!
//! A pool owns a queue of tasks and a fixed number of workers. Producers
//! submit tasks; each worker, in a loop, takes the oldest task and executes
//! it; the destruction of the pool closes the queue, lets the workers drain
//! it, and joins them.
//!
//! This crate holds every decision of such a pool and none of its threads.
//! [`ThreadPool`] says which task a worker gets, when a worker waits and for
//! what, when it leaves its loop, and in which order the destructor joins
//! the workers. The caller runs the tasks and does the waiting.
//!
//! - [`queue`]: the shared first-in, first-out queue and its closed state.
//! - [`worker`]: the life cycle of one worker.
//! - [`model`]: the pool as a state machine.
//! - [`pool`]: the executable pool, whose every operation is one step of the
//!   state machine.
//! - [`safety`]: the invariant of the state machine.
//! - [`accounting`]: every task runs exactly once.
//! - [`dispatch`]: tasks leave the queue in the order of submission, and the
//!   workers take them side by side.
//! - [`progress`]: destruction terminates.
pub mod accounting;
pub mod dispatch;
pub mod model;
pub mod pool;
pub mod progress;
pub mod queue;
pub mod safety;
pub mod worker;

pub use pool::{PoolSize, ThreadPool};
