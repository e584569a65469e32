//! The task representation: one owned unit of work, bundling a pool-assigned
//! id, a caller-chosen group id, the job payload, and its execution context.

use vstd::prelude::*;

verus! {

/// A caller-supplied per-task companion value. `on_start` runs once,
/// synchronously, immediately before the job body; `on_complete` once,
/// immediately after it returns. `set`/`get` are a caller-defined
/// key-to-number store for instrumentation; the pool never reads it.
pub trait Context: Send + Clone {
    fn set(&mut self, key: &str, value: u64);

    fn get(&self, key: &str) -> u64;

    fn on_start(&self);

    fn on_complete(&self);
}

/// Produces one fresh [`Context`] per submitted task, on the submitting
/// thread, so it should be cheap to call.
pub trait ContextFactory<Ctx: Context> {
    fn create_context(&self) -> Ctx;
}

/// One unit of work. The id is unique within a pool and strictly increasing
/// in assignment order; it is assigned when the task leaves the hand-off
/// channel and enters the scheduling queue, not at submission, so a fresh
/// task carries id 0 until then. The job payload is opaque to the pool: the
/// pool only moves it, and the embedding program invokes it.
pub struct Task<T, C, J> {
    /// The task's id in the pool, strictly greater than every id assigned
    /// before it once stamped.
    pub id: u64,
    /// Which group the task belongs to.
    pub gid: T,
    /// The job payload, carried through the queue untouched.
    pub job: J,
    /// The task's execution context.
    pub ctx: C,
}

impl<T, C: Context, J> Task<T, C, J> {
    /// Bundles a group id, a job and a context into a task whose id is left
    /// unset (0) until the pool stamps it.
    pub fn new(gid: T, job: J, ctx: C) -> (t: Task<T, C, J>)
        ensures
            t.id == 0,
            t.gid == gid,
            t.job == job,
            t.ctx == ctx,
    {
        Task { id: 0, gid, job, ctx }
    }
}

impl<T, C, J> Task<T, C, J> {
    /// The total order a priority-style queue would use: ids compare in
    /// *reverse*, so an earlier-assigned (smaller-id) task is the greater
    /// one and leaves a max-first structure first. A queue that needs no
    /// priority semantics ignores this order entirely.
    pub fn cmp(&self, right: &Task<T, C, J>) -> (r: core::cmp::Ordering)
        ensures
            r == core::cmp::Ordering::Equal <==> self.id == right.id,
            r == core::cmp::Ordering::Greater <==> self.id < right.id,
            r == core::cmp::Ordering::Less <==> self.id > right.id,
    {
        if self.id < right.id {
            core::cmp::Ordering::Greater
        } else if self.id > right.id {
            core::cmp::Ordering::Less
        } else {
            core::cmp::Ordering::Equal
        }
    }
}

impl<T, C, J> PartialEq for Task<T, C, J> {
    /// Two tasks are equal for scheduling exactly when their ids are equal.
    fn eq(&self, right: &Task<T, C, J>) -> (r: bool) {
        self.id == right.id
    }
}

impl<T, C, J> vstd::std_specs::cmp::PartialEqSpecImpl for Task<T, C, J> {
    open spec fn obeys_eq_spec() -> bool {
        true
    }

    open spec fn eq_spec(&self, right: &Task<T, C, J>) -> bool {
        self.id == right.id
    }
}

impl<T, C, J> PartialOrd for Task<T, C, J> {
    /// Scheduling order is total: reverse id order, as [`Task::cmp`] says.
    fn partial_cmp(&self, right: &Task<T, C, J>) -> (r: Option<core::cmp::Ordering>) {
        Some(self.cmp(right))
    }
}

impl<T, C, J> vstd::std_specs::cmp::PartialOrdSpecImpl for Task<T, C, J> {
    open spec fn obeys_partial_cmp_spec() -> bool {
        true
    }

    open spec fn partial_cmp_spec(&self, right: &Task<T, C, J>) -> Option<core::cmp::Ordering> {
        if self.id < right.id {
            Some(core::cmp::Ordering::Greater)
        } else if self.id > right.id {
            Some(core::cmp::Ordering::Less)
        } else {
            Some(core::cmp::Ordering::Equal)
        }
    }
}

} // verus!
