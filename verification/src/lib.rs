//! A worker-thread-pool core: tasks drawn from named groups, ordered by a
//! pluggable scheduling queue, handed from submitters to workers through a
//! channel and stamped with strictly increasing ids on arrival.
//!
//! This crate holds the verified heart of the pool: the task representation,
//! the scheduling-queue abstraction with its default first-in-first-out
//! implementation, and the shared pool state machine that drains the hand-off
//! channel, assigns ids, and decides what a worker runs next. The thread
//! plumbing (spawning, locking, blocking on a condition variable) lives with
//! the embedding program, which drives these functions under its own lock.

pub mod laws;
pub mod pool;
pub mod queue;
pub mod task;

pub use pool::collect_join_errors;
pub use pool::Poll;
pub use pool::TaskPool;
pub use queue::FifoQueue;
pub use queue::ScheduleQueue;
pub use queue::DEFAULT_QUEUE_CAPACITY;
pub use queue::QUEUE_MAX_CAPACITY;
pub use task::Context;
pub use task::ContextFactory;
pub use task::Task;
