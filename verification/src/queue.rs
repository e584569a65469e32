//! The pluggable scheduling-queue capability, and the default
//! first-in-first-out implementation.
//!
//! A scheduling queue decides the *order* in which already-arrived,
//! id-stamped tasks are dequeued. Every implementation describes its own
//! policy through the relation spec functions (`push_ens`, `pop_ens`,
//! `started_ens`, `finished_ens`), and must prove, once and for all, that
//! its policy conserves tasks: a push inserts exactly the pushed task, a
//! pop hands out exactly one currently-held task (or nothing), and the two
//! lifecycle notifications reorder but never add or drop work.

use vstd::multiset::Multiset;
use vstd::prelude::*;

use crate::task::Task;

verus! {

/// How a queue is asked to schedule. `push` takes ownership of a task with
/// its id already assigned; `pop` returns the next task to run under the
/// policy, or nothing if no task is available (it never blocks);
/// `on_task_started(gid)` / `on_task_finished(gid)` are invoked under the
/// pool's lock immediately before dispatch and immediately after completion
/// of a task of group `gid`, so a fairness-aware policy can deprioritize a
/// group while one of its tasks is in flight and restore it afterwards.
pub trait ScheduleQueue<T, C, J>: Sized {
    /// The tasks the queue currently holds, as a multiset: policies may
    /// reorder freely, so no order is imposed here.
    spec fn contents(&self) -> Multiset<Task<T, C, J>>;

    /// The policy's own exact description of what `push` does.
    spec fn push_ens(&self, post: Self, task: Task<T, C, J>) -> bool;

    /// The policy's own exact description of what `pop` does.
    spec fn pop_ens(&self, post: Self, r: Option<Task<T, C, J>>) -> bool;

    /// The policy's own exact description of what `on_task_started` does.
    spec fn started_ens(&self, post: Self, gid: T) -> bool;

    /// The policy's own exact description of what `on_task_finished` does.
    spec fn finished_ens(&self, post: Self, gid: T) -> bool;

    fn push(&mut self, task: Task<T, C, J>)
        ensures
            old(self).push_ens(*final(self), task),
    ;

    fn pop(&mut self) -> (r: Option<Task<T, C, J>>)
        ensures
            old(self).pop_ens(*final(self), r),
    ;

    fn on_task_started(&mut self, gid: &T)
        ensures
            old(self).started_ens(*final(self), *gid),
    ;

    fn on_task_finished(&mut self, gid: &T)
        ensures
            old(self).finished_ens(*final(self), *gid),
    ;

    /// Law every policy proves: a push inserts exactly the pushed task.
    proof fn lemma_push_ens_contents(&self, post: Self, task: Task<T, C, J>)
        requires
            self.push_ens(post, task),
        ensures
            post.contents() == self.contents().insert(task),
    ;

    /// Law every policy proves: a pop removes exactly the task it hands out,
    /// and hands out only a task the queue held.
    proof fn lemma_pop_ens_contents(&self, post: Self, r: Option<Task<T, C, J>>)
        requires
            self.pop_ens(post, r),
        ensures
            match r {
                Some(t) => self.contents().contains(t) && post.contents() == self.contents().remove(
                    t,
                ),
                None => post.contents() == self.contents(),
            },
    ;

    /// Law every policy proves: the start notification only reorders.
    proof fn lemma_started_ens_contents(&self, post: Self, gid: T)
        requires
            self.started_ens(post, gid),
        ensures
            post.contents() == self.contents(),
    ;

    /// Law every policy proves: the finish notification only reorders.
    proof fn lemma_finished_ens_contents(&self, post: Self, gid: T)
        requires
            self.finished_ens(post, gid),
        ensures
            post.contents() == self.contents(),
    ;
}

/// The default initial capacity of the FIFO queue's backing storage.
pub const DEFAULT_QUEUE_CAPACITY: usize = 1000;

/// Once the backing storage has grown past this ceiling and the queue
/// drains completely, the storage is given back, so a burst does not pin
/// its peak memory forever.
pub const QUEUE_MAX_CAPACITY: usize = 8 * DEFAULT_QUEUE_CAPACITY;

/// First-in-first-out queue: dequeues in exactly arrival order, treats the
/// two lifecycle notifications as no-ops.
pub struct FifoQueue<T, C, J> {
    queue: std::collections::VecDeque<Task<T, C, J>>,
}

impl<T, C, J> FifoQueue<T, C, J> {
    /// An empty FIFO queue.
    pub fn new() -> (q: FifoQueue<T, C, J>)
        ensures
            q@ =~= Seq::<Task<T, C, J>>::empty(),
    {
        FifoQueue { queue: std::collections::VecDeque::with_capacity(DEFAULT_QUEUE_CAPACITY) }
    }

    /// How many tasks the queue currently holds.
    pub fn len(&self) -> (n: usize)
        ensures
            n == self@.len(),
    {
        self.queue.len()
    }
}

impl<T, C, J> View for FifoQueue<T, C, J> {
    type V = Seq<Task<T, C, J>>;

    /// The held tasks, front (next to leave) first.
    closed spec fn view(&self) -> Seq<Task<T, C, J>> {
        self.queue@
    }
}

/// Relies on std's `VecDeque::capacity`: the documentation promises the
/// result is the number of elements the deque can hold without reallocating,
/// which is at least its current length. Capacity is an allocator's gift, so
/// nothing more is claimed of it.
#[verifier::external_body]
fn deque_capacity<X>(q: &std::collections::VecDeque<X>) -> (r: usize)
    ensures
        r >= q@.len(),
{
    q.capacity()
}

impl<T, C, J> ScheduleQueue<T, C, J> for FifoQueue<T, C, J> {
    closed spec fn contents(&self) -> Multiset<Task<T, C, J>> {
        self@.to_multiset()
    }

    /// A push appends at the back.
    open spec fn push_ens(&self, post: Self, task: Task<T, C, J>) -> bool {
        post@ == self@.push(task)
    }

    /// A pop takes the front task, exactly arrival order; on an empty queue
    /// it returns nothing and holds nothing afterwards either.
    open spec fn pop_ens(&self, post: Self, r: Option<Task<T, C, J>>) -> bool {
        match r {
            Some(t) => self@.len() > 0 && t == self@[0] && post@ == self@.drop_first(),
            None => self@.len() == 0 && post@ == self@,
        }
    }

    /// The start notification is a no-op here.
    open spec fn started_ens(&self, post: Self, gid: T) -> bool {
        post@ == self@
    }

    /// The finish notification is a no-op here.
    open spec fn finished_ens(&self, post: Self, gid: T) -> bool {
        post@ == self@
    }

    fn push(&mut self, task: Task<T, C, J>) {
        self.queue.push_back(task);
    }

    fn pop(&mut self) -> (r: Option<Task<T, C, J>>) {
        let task = self.queue.pop_front();

        // Give an oversized, fully drained backing store back to the
        // allocator, so burst capacity is not retained without bound.
        if self.queue.len() == 0 && deque_capacity(&self.queue) > QUEUE_MAX_CAPACITY {
            self.queue = std::collections::VecDeque::with_capacity(DEFAULT_QUEUE_CAPACITY);
        }

        proof {
            if task is Some {
                assert(self@ =~= old(self)@.drop_first());
            } else {
                assert(self@ =~= old(self)@);
            }
        }
        task
    }

    fn on_task_started(&mut self, _gid: &T) {
    }

    fn on_task_finished(&mut self, _gid: &T) {
    }

    proof fn lemma_push_ens_contents(&self, post: Self, task: Task<T, C, J>) {
        broadcast use vstd::seq_lib::group_to_multiset_ensures;

    }

    proof fn lemma_pop_ens_contents(&self, post: Self, r: Option<Task<T, C, J>>) {
        broadcast use vstd::seq_lib::group_to_multiset_ensures;

        if let Some(t) = r {
            assert(self@.drop_first() =~= self@.remove(0));
            assert(self@.contains(self@[0]));
        }
    }

    proof fn lemma_started_ens_contents(&self, post: Self, gid: T) {
    }

    proof fn lemma_finished_ens_contents(&self, post: Self, gid: T) {
    }
}

} // verus!
