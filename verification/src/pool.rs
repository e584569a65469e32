//! The shared pool state: the single point of truth for "what runs next".
//!
//! A `TaskPool` combines the scheduling queue, the receive end of the
//! unbounded hand-off channel from submitters, the monotonic id counter and
//! the stop flag. The embedding program keeps it behind one mutex paired
//! with one condition variable and calls into it only under that lock; the
//! functions here are the decisions a worker takes while holding it.

use vstd::prelude::*;

use std::sync::mpsc::Receiver;

use crate::queue::ScheduleQueue;
use crate::task::Task;

verus! {

/// std's `mpsc::Receiver`, declared so the pool can hold the receive end of
/// the hand-off channel; the pool only ever calls `try_recv` on it.
#[verifier::external_type_specification]
#[verifier::external_body]
#[verifier::reject_recursive_types(T)]
pub struct ExReceiver<T>(Receiver<T>);

/// Relies on std's `mpsc::Receiver::try_recv`: hands back a message that is
/// already waiting on the channel, without blocking, or nothing when the
/// channel is currently empty or disconnected. What arrives, and whether
/// anything does, depends on the submitting threads, so nothing is claimed
/// of the result.
#[verifier::external_body]
fn try_recv<X>(jobs: &Receiver<X>) -> (r: Option<X>) {
    jobs.try_recv().ok()
}

/// The batch `ts` carries consecutive ids `start, start + 1, ...`: the order
/// in which tasks were drained from the hand-off channel is exactly the
/// order of their ids.
pub open spec fn stamped<T, C, J>(ts: Seq<Task<T, C, J>>, start: u64) -> bool {
    &&& start + ts.len() <= u64::MAX
    &&& forall|i: int| 0 <= i < ts.len() ==> (#[trigger] ts[i]).id == start + i
}

/// The queue went from `q0` to `q1` by pushing exactly the tasks of `ts`,
/// front first, each step as the queue's own `push_ens` policy describes.
pub open spec fn fill_ens<T, C, J, Q: ScheduleQueue<T, C, J>>(
    q0: Q,
    q1: Q,
    ts: Seq<Task<T, C, J>>,
) -> bool
    decreases ts.len(),
{
    if ts.len() == 0 {
        q1 == q0
    } else {
        exists|qm: Q| #[trigger] q0.push_ens(qm, ts[0]) && fill_ens(qm, q1, ts.drop_first())
    }
}

/// A pushed chain grows at its back: one more `push_ens` step extends the
/// chain by one more task.
pub proof fn lemma_fill_ens_snoc<T, C, J, Q: ScheduleQueue<T, C, J>>(
    q0: Q,
    q1: Q,
    q2: Q,
    ts: Seq<Task<T, C, J>>,
    task: Task<T, C, J>,
)
    requires
        fill_ens(q0, q1, ts),
        q1.push_ens(q2, task),
    ensures
        fill_ens(q0, q2, ts.push(task)),
    decreases ts.len(),
{
    if ts.len() == 0 {
        assert(ts.push(task)[0] == task);
        assert(ts.push(task).drop_first() =~= Seq::<Task<T, C, J>>::empty());
        assert(q0.push_ens(q2, task) && fill_ens(q2, q2, ts.push(task).drop_first()));
    } else {
        let qm = choose|qm: Q| #[trigger] q0.push_ens(qm, ts[0]) && fill_ens(qm, q1, ts.drop_first());
        lemma_fill_ens_snoc(qm, q1, q2, ts.drop_first(), task);
        assert(ts.push(task)[0] == ts[0]);
        assert(ts.push(task).drop_first() =~= ts.drop_first().push(task));
        assert(q0.push_ens(qm, ts.push(task)[0]) && fill_ens(qm, q2, ts.push(task).drop_first()));
    }
}

/// A pushed chain inserts exactly its tasks into the queue's contents.
pub proof fn lemma_fill_ens_contents<T, C, J, Q: ScheduleQueue<T, C, J>>(
    q0: Q,
    q1: Q,
    ts: Seq<Task<T, C, J>>,
)
    requires
        fill_ens(q0, q1, ts),
    ensures
        q1.contents() == q0.contents().add(ts.to_multiset()),
    decreases ts.len(),
{
    broadcast use vstd::seq_lib::group_to_multiset_ensures;

    if ts.len() == 0 {
        assert(q1.contents() =~= q0.contents().add(ts.to_multiset()));
    } else {
        let qm = choose|qm: Q| #[trigger] q0.push_ens(qm, ts[0]) && fill_ens(qm, q1, ts.drop_first());
        q0.lemma_push_ens_contents(qm, ts[0]);
        lemma_fill_ens_contents(qm, q1, ts.drop_first());
        assert(ts.drop_first().push(ts[0]).to_multiset() =~= ts.drop_first().to_multiset().insert(
            ts[0],
        ));
        assert(ts.drop_first().push(ts[0]).to_multiset() =~= ts.to_multiset()) by {
            vstd::seq_lib::lemma_multiset_commutative(seq![ts[0]], ts.drop_first());
            vstd::seq_lib::lemma_multiset_commutative(ts.drop_first(), seq![ts[0]]);
            assert(seq![ts[0]] + ts.drop_first() =~= ts);
        }
        assert(q1.contents() =~= q0.contents().add(ts.to_multiset()));
    }
}

/// The queue went from `q0` to `q1` through one `pop_task` call that
/// returned `r`: the result came off the queue by its own policy — straight
/// away (nothing drained), or after one empty-handed pop, the pushes of the
/// drained batch, and a second pop.
pub open spec fn sched_pop_chain<T, C, J, Q: ScheduleQueue<T, C, J>>(
    q0: Q,
    q1: Q,
    r: Option<Task<T, C, J>>,
    drained: Seq<Task<T, C, J>>,
) -> bool {
    ||| (r is Some && drained.len() == 0 && q0.pop_ens(q1, r))
    ||| (exists|qa: Q, qb: Q|
        {
            &&& q0.pop_ens(qa, None::<Task<T, C, J>>)
            &&& #[trigger] fill_ens(qa, qb, drained)
            &&& qb.pop_ens(q1, r)
        })
}

/// What one `pop_task` call does: the stop flag is untouched; some batch
/// `drained` left the hand-off channel and entered the queue with fresh
/// consecutive ids; and the result came off the queue by its own policy.
pub open spec fn pop_task_ens<T, C, J, Q: ScheduleQueue<T, C, J>>(
    pre: TaskPool<Q, T, C, J>,
    post: TaskPool<Q, T, C, J>,
    r: Option<Task<T, C, J>>,
    drained: Seq<Task<T, C, J>>,
) -> bool {
    &&& post.stopped() == pre.stopped()
    &&& stamped(drained, pre.next_id())
    &&& post.next_id() == pre.next_id() + drained.len()
    &&& sched_pop_chain(pre.sched(), post.sched(), r, drained)
}

/// What one `poll_task` call does: on a stopped pool, nothing at all; else
/// one `pop_task`, and when that hands a task out, `on_task_started` for its
/// group under the same lock acquisition, before anything else can pop. The
/// queue state between the pop and the start notification is `qmid`.
pub open spec fn poll_task_ens<T, C, J, Q: ScheduleQueue<T, C, J>>(
    pre: TaskPool<Q, T, C, J>,
    post: TaskPool<Q, T, C, J>,
    r: Poll<T, C, J>,
    drained: Seq<Task<T, C, J>>,
    qmid: Q,
) -> bool {
    match r {
        Poll::Stopped => pre.stopped() && post == pre && drained.len() == 0,
        Poll::Ready(t) => {
            &&& !pre.stopped()
            &&& post.stopped() == pre.stopped()
            &&& stamped(drained, pre.next_id())
            &&& post.next_id() == pre.next_id() + drained.len()
            &&& sched_pop_chain(pre.sched(), qmid, Some(t), drained)
            &&& qmid.started_ens(post.sched(), t.gid)
        },
        Poll::Empty => !pre.stopped() && pop_task_ens(pre, post, None::<Task<T, C, J>>, drained),
    }
}

/// The concatenation of the messages, in order.
pub open spec fn concat_msgs(msgs: Seq<Seq<char>>) -> Seq<char>
    decreases msgs.len(),
{
    if msgs.len() == 0 {
        Seq::empty()
    } else {
        concat_msgs(msgs.drop_last()) + msgs.last()
    }
}

/// Relies on std's `String::push_str`: appends the given string slice onto
/// the end of the string.
#[verifier::external_body]
fn push_str(s: &mut String, other: &str)
    ensures
        final(s)@ == old(s)@ + other@,
{
    s.push_str(other)
}

/// Folds the join failures of a shutdown into one result: success exactly
/// when the reports amount to nothing, else a single combined error that
/// carries every message, in order, rather than only the first.
pub fn collect_join_errors(failures: Vec<String>) -> (r: Result<(), String>)
    ensures
        ({
            let all = concat_msgs(failures@.map_values(|f: String| f@));
            match r {
                Ok(u) => all.len() == 0,
                Err(m) => m@ == all && all.len() > 0,
            }
        }),
{
    let ghost views = failures@.map_values(|f: String| f@);
    let mut err_msg = String::new();
    let mut i: usize = 0;
    while i < failures.len()
        invariant
            i <= failures@.len(),
            views == failures@.map_values(|f: String| f@),
            err_msg@ == concat_msgs(views.take(i as int)),
        decreases failures@.len() - i,
    {
        push_str(&mut err_msg, failures[i].as_str());
        proof {
            assert(views.take(i + 1).drop_last() =~= views.take(i as int));
            assert(views.take(i + 1).last() == views[i as int]);
        }
        i += 1;
    }
    proof {
        assert(views.take(failures@.len() as int) =~= views);
    }
    if err_msg.as_str().is_empty() {
        Ok(())
    } else {
        Err(err_msg)
    }
}

/// What a worker holds after one attempt to get work under the lock.
pub enum Poll<T, C, J> {
    /// The stop flag is set: the worker must terminate.
    Stopped,
    /// A task to run; `on_task_started` has already been invoked for its
    /// group, under the same lock acquisition as the pop.
    Ready(Task<T, C, J>),
    /// Nothing is available right now: the worker should block on the
    /// condition variable and try again when woken.
    Empty,
}

/// The mutex-protected shared state of a pool: scheduling queue, hand-off
/// channel receive end, monotonic id counter, stop flag.
#[verifier::reject_recursive_types(T)]
#[verifier::reject_recursive_types(C)]
#[verifier::reject_recursive_types(J)]
pub struct TaskPool<Q, T, C, J> {
    next_task_id: u64,
    task_queue: Q,
    stop: bool,
    jobs: Receiver<Task<T, C, J>>,
}

impl<Q, T, C, J> TaskPool<Q, T, C, J> where Q: ScheduleQueue<T, C, J> {
    /// The next id to assign; every id already handed out is smaller.
    pub closed spec fn next_id(&self) -> u64 {
        self.next_task_id
    }

    /// The scheduling queue's current state.
    pub closed spec fn sched(&self) -> Q {
        self.task_queue
    }

    /// Whether `stop` has been called.
    pub closed spec fn stopped(&self) -> bool {
        self.stop
    }

    /// A fresh pool around a scheduling queue and the receive end of the
    /// hand-off channel; ids start at 0 and the pool is running.
    pub fn new(queue: Q, jobs: Receiver<Task<T, C, J>>) -> (p: TaskPool<Q, T, C, J>)
        ensures
            p.next_id() == 0,
            p.sched() == queue,
            !p.stopped(),
    {
        TaskPool { next_task_id: 0, task_queue: queue, stop: false, jobs }
    }

    /// Forwards a completed task's group to the queue's fairness hook.
    pub fn on_task_finished(&mut self, gid: &T)
        ensures
            old(self).sched().finished_ens(final(self).sched(), *gid),
            final(self).next_id() == old(self).next_id(),
            final(self).stopped() == old(self).stopped(),
    {
        self.task_queue.on_task_finished(gid);
    }

    /// Forwards a dispatched task's group to the queue's fairness hook.
    pub fn on_task_started(&mut self, gid: &T)
        ensures
            old(self).sched().started_ens(final(self).sched(), *gid),
            final(self).next_id() == old(self).next_id(),
            final(self).stopped() == old(self).stopped(),
    {
        self.task_queue.on_task_started(gid);
    }

    /// Drains every task currently waiting on the hand-off channel into the
    /// scheduling queue, assigning strictly increasing ids in drain order.
    /// The drained batch itself is returned as ghost information: the
    /// channel is the arrival record, so the batch is whatever submitters
    /// have sent, but its ids and its entry into the queue are exact.
    /// Should the id counter ever reach its ceiling, the drain stops and
    /// later arrivals stay in the channel.
    pub fn try_fill_queue(&mut self) -> (drained: Ghost<Seq<Task<T, C, J>>>)
        ensures
            stamped(drained@, old(self).next_id()),
            final(self).next_id() == old(self).next_id() + drained@.len(),
            fill_ens(old(self).sched(), final(self).sched(), drained@),
            final(self).stopped() == old(self).stopped(),
    {
        let ghost mut batch: Seq<Task<T, C, J>> = Seq::empty();
        loop
            invariant
                stamped(batch, old(self).next_id()),
                self.next_task_id == old(self).next_id() + batch.len(),
                fill_ens(old(self).sched(), self.sched(), batch),
                self.stop == old(self).stopped(),
            decreases u64::MAX - self.next_task_id,
        {
            if self.next_task_id == u64::MAX {
                break ;
            }
            match try_recv(&self.jobs) {
                None => {
                    break ;
                },
                Some(mut task) => {
                    let ghost q_pre = self.task_queue;
                    task.id = self.next_task_id;
                    let ghost t = task;
                    self.next_task_id = self.next_task_id + 1;
                    self.task_queue.push(task);
                    proof {
                        lemma_fill_ens_snoc(old(self).sched(), q_pre, self.sched(), batch, t);
                        batch = batch.push(t);
                    }
                },
            }
        }
        Ghost(batch)
    }

    /// The next task to run, per the queue's policy: tries the queue first;
    /// if it is empty-handed, drains the channel into the queue and tries
    /// once more. Returns the task, if any, and as ghost information the
    /// batch drained on the way.
    pub fn pop_task(&mut self) -> (r: (Option<Task<T, C, J>>, Ghost<Seq<Task<T, C, J>>>))
        ensures
            pop_task_ens(*old(self), *final(self), r.0, r.1@),
    {
        let first = self.task_queue.pop();
        if let Some(task) = first {
            return (Some(task), Ghost(Seq::empty()));
        }
        let ghost qa = self.task_queue;
        let drained = self.try_fill_queue();
        let ghost qb = self.task_queue;
        let second = self.task_queue.pop();
        proof {
            assert(old(self).sched().pop_ens(qa, None::<Task<T, C, J>>) && fill_ens(qa, qb, drained@)
                && qb.pop_ens(self.sched(), second));
        }
        (second, drained)
    }

    /// Sets the stop flag. Nothing is drained or cancelled: tasks still in
    /// the channel or the queue are simply never popped again once workers
    /// observe the flag.
    pub fn stop(&mut self)
        ensures
            final(self).stopped(),
            final(self).next_id() == old(self).next_id(),
            final(self).sched() == old(self).sched(),
    {
        self.stop = true;
    }

    /// Whether `stop` has been called.
    pub fn is_stopped(&self) -> (r: bool)
        ensures
            r == self.stopped(),
    {
        self.stop
    }

    /// One attempt, under the lock, to decide what a worker does next: if
    /// the pool is stopped, the worker terminates — so a stopped pool never
    /// hands out another task; otherwise one `pop_task`, and for a task that
    /// comes out, `on_task_started` for its group under the same lock.
    pub fn poll_task(&mut self) -> (r: (Poll<T, C, J>, Ghost<Seq<Task<T, C, J>>>, Ghost<Q>))
        ensures
            poll_task_ens(*old(self), *final(self), r.0, r.1@, r.2@),
    {
        if self.is_stopped() {
            return (Poll::Stopped, Ghost(Seq::empty()), Ghost(self.sched()));
        }
        let (popped, drained) = self.pop_task();
        let ghost qmid = self.sched();
        match popped {
            Some(task) => {
                self.on_task_started(&task.gid);
                (Poll::Ready(task), drained, Ghost(qmid))
            },
            None => (Poll::Empty, drained, Ghost(qmid)),
        }
    }
}

} // verus!
