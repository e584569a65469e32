//! The pool's global laws, stated over the relation spec functions that the
//! queue and pool contracts use, and proved once and for all.

use vstd::multiset::Multiset;
use vstd::prelude::*;

use crate::pool::fill_ens;
use crate::pool::poll_task_ens;
use crate::pool::pop_task_ens;
use crate::pool::sched_pop_chain;
use crate::pool::stamped;
use crate::pool::Poll;
use crate::pool::TaskPool;
use crate::queue::FifoQueue;
use crate::queue::ScheduleQueue;
use crate::task::Task;

verus! {

/// The queue went from `q0` to `q1` through successful pops that handed out
/// exactly the tasks of `rs`, in this order.
pub open spec fn fifo_pops_to<T, C, J>(
    q0: FifoQueue<T, C, J>,
    rs: Seq<Task<T, C, J>>,
    q1: FifoQueue<T, C, J>,
) -> bool
    decreases rs.len(),
{
    if rs.len() == 0 {
        q1 == q0
    } else {
        exists|qm: FifoQueue<T, C, J>|
            #[trigger] q0.pop_ens(qm, Some(rs[0])) && fifo_pops_to(qm, rs.drop_first(), q1)
    }
}

/// Law: the default FIFO queue dequeues in exactly arrival order. Whatever
/// run of successful pops a queue goes through, the tasks handed out are a
/// prefix of what it held, front first, and the rest stays in order.
pub proof fn lemma_fifo_pops_in_arrival_order<T, C, J>(
    q0: FifoQueue<T, C, J>,
    rs: Seq<Task<T, C, J>>,
    q1: FifoQueue<T, C, J>,
)
    requires
        fifo_pops_to(q0, rs, q1),
    ensures
        rs.len() <= q0@.len(),
        rs == q0@.take(rs.len() as int),
        q1@ == q0@.skip(rs.len() as int),
    decreases rs.len(),
{
    if rs.len() == 0 {
        assert(rs =~= q0@.take(0));
        assert(q1@ =~= q0@.skip(0));
    } else {
        let qm = choose|qm: FifoQueue<T, C, J>|
            #[trigger] q0.pop_ens(qm, Some(rs[0])) && fifo_pops_to(qm, rs.drop_first(), q1);
        lemma_fifo_pops_in_arrival_order(qm, rs.drop_first(), q1);
        let n = rs.len() as int;
        assert(qm@ == q0@.drop_first());
        assert forall|i: int| 0 <= i < n implies rs[i] == q0@.take(n)[i] by {
            if i > 0 {
                assert(rs[i] == rs.drop_first()[i - 1]);
                assert(rs.drop_first()[i - 1] == qm@.take(n - 1)[i - 1]);
                assert(qm@[i - 1] == q0@[i]);
            }
        }
        assert(rs =~= q0@.take(n));
        assert forall|i: int| 0 <= i < q1@.len() implies q1@[i] == q0@.skip(n)[i] by {
            assert(q1@[i] == qm@.skip(n - 1)[i]);
            assert(qm@[i + n - 1] == q0@[i + n]);
        }
        assert(q1@ =~= q0@.skip(n));
    }
}

/// Law: filling the FIFO queue appends the batch behind what it holds, in
/// exactly batch order.
pub proof fn lemma_fifo_fill_appends<T, C, J>(
    q0: FifoQueue<T, C, J>,
    q1: FifoQueue<T, C, J>,
    ts: Seq<Task<T, C, J>>,
)
    requires
        fill_ens(q0, q1, ts),
    ensures
        q1@ == q0@ + ts,
    decreases ts.len(),
{
    if ts.len() == 0 {
        assert(q1@ =~= q0@ + ts);
    } else {
        let qm = choose|qm: FifoQueue<T, C, J>|
            #[trigger] q0.push_ens(qm, ts[0]) && fill_ens(qm, q1, ts.drop_first());
        lemma_fifo_fill_appends(qm, q1, ts.drop_first());
        assert(q1@ =~= q0@ + ts);
    }
}

/// A FIFO queue is well formed below an id bound when it holds tasks in
/// strictly increasing id order, all of them stamped below the bound.
pub open spec fn fifo_wf<T, C, J>(q: FifoQueue<T, C, J>, bound: int) -> bool {
    &&& forall|i: int, j: int|
        #![trigger q@[i], q@[j]]
        0 <= i < j < q@.len() ==> q@[i].id < q@[j].id
    &&& forall|i: int| 0 <= i < q@.len() ==> (#[trigger] q@[i]).id < bound
}

/// A FIFO-backed pool is well formed when its queue holds tasks in strictly
/// increasing id order, all of them stamped below the id counter.
pub open spec fn fifo_pool_inv<T, C, J>(p: TaskPool<FifoQueue<T, C, J>, T, C, J>) -> bool {
    fifo_wf(p.sched(), p.next_id() as int)
}

/// Law, queue level: one pop chain on a well-formed FIFO queue hands out a
/// task that precedes, by id, everything the queue still holds, and leaves
/// the queue well formed under the advanced id counter.
pub proof fn lemma_fifo_pop_chain_in_id_order<T, C, J>(
    q0: FifoQueue<T, C, J>,
    q1: FifoQueue<T, C, J>,
    r: Option<Task<T, C, J>>,
    drained: Seq<Task<T, C, J>>,
    start: u64,
)
    requires
        fifo_wf(q0, start as int),
        stamped(drained, start),
        sched_pop_chain(q0, q1, r, drained),
    ensures
        fifo_wf(q1, start + drained.len()),
        r matches Some(t) ==> t.id < start + drained.len() && forall|i: int|
            0 <= i < q1@.len() ==> t.id < (#[trigger] q1@[i]).id,
{
    if r is Some && drained.len() == 0 && q0.pop_ens(q1, r) {
        let t = r->0;
        assert(t == q0@[0]);
        assert(q1@ == q0@.drop_first());
        assert(forall|i: int| 0 <= i < q1@.len() ==> q1@[i] == q0@[i + 1]);
    } else {
        let (qa, qb) = choose|qa: FifoQueue<T, C, J>, qb: FifoQueue<T, C, J>|
            {
                &&& q0.pop_ens(qa, None::<Task<T, C, J>>)
                &&& #[trigger] fill_ens(qa, qb, drained)
                &&& qb.pop_ens(q1, r)
            };
        lemma_fifo_fill_appends(qa, qb, drained);
        assert(q0@.len() == 0);
        assert(qb@ =~= drained);
        match r {
            Some(t) => {
                assert(t == drained[0]);
                assert(q1@ == drained.drop_first());
                assert(forall|i: int| 0 <= i < q1@.len() ==> q1@[i] == drained[i + 1]);
            },
            None => {
                assert(q1@.len() == 0);
            },
        }
    }
}

/// Law: with one worker, a FIFO-backed pool runs jobs in exactly submission
/// order. The submission order is the id order — ids are stamped in arrival
/// order — and each task `pop_task` hands out precedes, by id, everything
/// the queue still holds; well-formedness is preserved, so this holds of
/// every later pop as well.
pub proof fn lemma_fifo_pool_pops_in_submission_order<T, C, J>(
    pre: TaskPool<FifoQueue<T, C, J>, T, C, J>,
    post: TaskPool<FifoQueue<T, C, J>, T, C, J>,
    r: Option<Task<T, C, J>>,
    drained: Seq<Task<T, C, J>>,
)
    requires
        fifo_pool_inv(pre),
        pop_task_ens(pre, post, r, drained),
    ensures
        fifo_pool_inv(post),
        r matches Some(t) ==> t.id < post.next_id() && forall|i: int|
            0 <= i < post.sched()@.len() ==> t.id < (#[trigger] post.sched()@[i]).id,
{
    lemma_fifo_pop_chain_in_id_order(pre.sched(), post.sched(), r, drained, pre.next_id());
}

/// Law: the same holds through a worker's whole `poll_task` step — the
/// start notification is a no-op on what the FIFO queue holds, so the task
/// a worker receives precedes, by id, everything still pending.
pub proof fn lemma_fifo_pool_polls_in_submission_order<T, C, J>(
    pre: TaskPool<FifoQueue<T, C, J>, T, C, J>,
    post: TaskPool<FifoQueue<T, C, J>, T, C, J>,
    t: Task<T, C, J>,
    drained: Seq<Task<T, C, J>>,
    qmid: FifoQueue<T, C, J>,
)
    requires
        fifo_pool_inv(pre),
        poll_task_ens(pre, post, Poll::Ready(t), drained, qmid),
    ensures
        fifo_pool_inv(post),
        t.id < post.next_id(),
        forall|i: int| 0 <= i < post.sched()@.len() ==> t.id < (#[trigger] post.sched()@[i]).id,
{
    lemma_fifo_pop_chain_in_id_order(pre.sched(), qmid, Some(t), drained, pre.next_id());
    assert(post.sched()@ == qmid@);
}

/// A queue is well formed below an id bound when every task it holds was
/// stamped below the bound, occurs at most once, and no two held tasks
/// share an id.
pub open spec fn queue_wf<T, C, J, Q: ScheduleQueue<T, C, J>>(q: Q, bound: int) -> bool {
    &&& forall|t: Task<T, C, J>| #[trigger] q.contents().count(t) > 0 ==> t.id < bound
    &&& forall|t: Task<T, C, J>| #[trigger] q.contents().count(t) <= 1
    &&& forall|t1: Task<T, C, J>, t2: Task<T, C, J>|
        #![trigger q.contents().count(t1), q.contents().count(t2)]
        q.contents().count(t1) > 0 && q.contents().count(t2) > 0 && t1.id == t2.id ==> t1 == t2
}

/// Every task a pool's queue holds was stamped below the id counter, occurs
/// at most once, and no two held tasks share an id.
pub open spec fn pool_inv<T, C, J, Q: ScheduleQueue<T, C, J>>(p: TaskPool<Q, T, C, J>) -> bool {
    queue_wf(p.sched(), p.next_id() as int)
}

/// Law, queue level: one pop chain moves the drained batch into the queue's
/// contents and takes out exactly the returned task, which was held exactly
/// once; well-formedness — ids unique and below the counter — is preserved,
/// whatever the scheduling policy.
pub proof fn lemma_pop_chain_conserves_tasks<T, C, J, Q: ScheduleQueue<T, C, J>>(
    q0: Q,
    q1: Q,
    r: Option<Task<T, C, J>>,
    drained: Seq<Task<T, C, J>>,
    start: u64,
)
    requires
        queue_wf(q0, start as int),
        stamped(drained, start),
        sched_pop_chain(q0, q1, r, drained),
    ensures
        queue_wf(q1, start + drained.len()),
        match r {
            Some(t) => q0.contents().add(drained.to_multiset()).count(t) == 1 && q1.contents()
                == q0.contents().add(drained.to_multiset()).remove(t),
            None => q1.contents() == q0.contents().add(drained.to_multiset()),
        },
{
    broadcast use vstd::multiset::group_multiset_axioms;
    broadcast use vstd::seq_lib::group_to_multiset_ensures;

    let m0 = q0.contents();
    let dm = drained.to_multiset();
    let mid = m0.add(dm);
    let bound2 = start + drained.len();

    assert(drained.no_duplicates()) by {
        assert(forall|i: int, j: int|
            #![trigger drained[i], drained[j]]
            0 <= i < drained.len() && 0 <= j < drained.len() && i != j ==> drained[i].id
                != drained[j].id);
    }
    drained.lemma_multiset_has_no_duplicates();

    // Everything drained carries a fresh id; everything already held, an old one.
    assert forall|t: Task<T, C, J>| #[trigger] dm.count(t) > 0 implies start <= t.id < bound2 by {
        assert(drained.contains(t));
        let i = choose|i: int| 0 <= i < drained.len() && drained[i] == t;
        assert(drained[i].id == start + i);
    }
    assert forall|t1: Task<T, C, J>, t2: Task<T, C, J>|
        #![trigger dm.count(t1), dm.count(t2)]
        dm.count(t1) > 0 && dm.count(t2) > 0 && t1.id == t2.id implies t1 == t2 by {
        assert(drained.contains(t1));
        assert(drained.contains(t2));
        let i = choose|i: int| 0 <= i < drained.len() && drained[i] == t1;
        let j = choose|j: int| 0 <= j < drained.len() && drained[j] == t2;
        assert(drained[i].id == start + i);
        assert(drained[j].id == start + j);
        assert(i == j);
    }

    // The two sides cannot overlap, so the union still holds nothing twice.
    assert forall|t: Task<T, C, J>| #[trigger] mid.count(t) <= 1 by {
        if t.id < start {
            if dm.count(t) > 0 {
                assert(start <= t.id);
            }
            assert(mid.count(t) == m0.count(t));
        } else {
            assert(m0.count(t) == 0);
            if dm.count(t) > 0 {
                assert(drained.contains(t));
                assert(dm.count(t) == 1);
            }
        }
    }

    // Unfold the pop chain and apply the queue's conservation laws.
    if r is Some && drained.len() == 0 && q0.pop_ens(q1, r) {
        q0.lemma_pop_ens_contents(q1, r);
        assert(dm =~= Multiset::<Task<T, C, J>>::empty()) by {
            assert(forall|t: Task<T, C, J>| !drained.contains(t));
        }
        assert(mid =~= m0);
        assert(q1.contents() == mid.remove(r->0));
    } else {
        let (qa, qb) = choose|qa: Q, qb: Q|
            {
                &&& q0.pop_ens(qa, None::<Task<T, C, J>>)
                &&& #[trigger] fill_ens(qa, qb, drained)
                &&& qb.pop_ens(q1, r)
            };
        q0.lemma_pop_ens_contents(qa, None::<Task<T, C, J>>);
        crate::pool::lemma_fill_ens_contents(qa, qb, drained);
        qb.lemma_pop_ens_contents(q1, r);
        assert(qb.contents() =~= mid);
    }

    // The contents only lost a task, so well-formedness carries over.
    assert forall|t: Task<T, C, J>| #[trigger] q1.contents().count(t) <= mid.count(t) by {}
    assert forall|t: Task<T, C, J>| #[trigger] q1.contents().count(t) > 0 implies t.id
        < bound2 by {
        assert(mid.count(t) > 0);
        if t.id < start {
        } else {
            assert(m0.count(t) == 0);
            assert(dm.count(t) > 0);
        }
    }
    assert forall|t1: Task<T, C, J>, t2: Task<T, C, J>|
        #![trigger q1.contents().count(t1), q1.contents().count(t2)]
        q1.contents().count(t1) > 0 && q1.contents().count(t2) > 0 && t1.id == t2.id implies t1
            == t2 by {
        assert(mid.count(t1) > 0 && mid.count(t2) > 0);
        if t1.id < start {
            assert(m0.count(t1) > 0 && m0.count(t2) > 0);
        } else {
            assert(dm.count(t1) > 0 && dm.count(t2) > 0);
        }
    }
}

/// Law: no task is lost and none is handed out twice, whatever the
/// scheduling policy. One `pop_task` moves the drained batch into the
/// queue's contents and takes out exactly the returned task, which was held
/// exactly once; well-formedness is preserved, so a task that left can
/// never be handed out again.
pub proof fn lemma_pop_task_conserves_tasks<T, C, J, Q: ScheduleQueue<T, C, J>>(
    pre: TaskPool<Q, T, C, J>,
    post: TaskPool<Q, T, C, J>,
    r: Option<Task<T, C, J>>,
    drained: Seq<Task<T, C, J>>,
)
    requires
        pool_inv(pre),
        pop_task_ens(pre, post, r, drained),
    ensures
        pool_inv(post),
        match r {
            Some(t) => pre.sched().contents().add(drained.to_multiset()).count(t) == 1
                && post.sched().contents() == pre.sched().contents().add(
                drained.to_multiset(),
            ).remove(t),
            None => post.sched().contents() == pre.sched().contents().add(drained.to_multiset()),
        },
{
    lemma_pop_chain_conserves_tasks(pre.sched(), post.sched(), r, drained, pre.next_id());
}

/// Law: the same holds through a worker's whole `poll_task` step — the
/// start notification never adds or drops work, so the total number of
/// tasks handed to workers can only match what was submitted.
pub proof fn lemma_poll_ready_conserves_tasks<T, C, J, Q: ScheduleQueue<T, C, J>>(
    pre: TaskPool<Q, T, C, J>,
    post: TaskPool<Q, T, C, J>,
    t: Task<T, C, J>,
    drained: Seq<Task<T, C, J>>,
    qmid: Q,
)
    requires
        pool_inv(pre),
        poll_task_ens(pre, post, Poll::Ready(t), drained, qmid),
    ensures
        pool_inv(post),
        pre.sched().contents().add(drained.to_multiset()).count(t) == 1,
        post.sched().contents() == pre.sched().contents().add(drained.to_multiset()).remove(t),
{
    lemma_pop_chain_conserves_tasks(pre.sched(), qmid, Some(t), drained, pre.next_id());
    qmid.lemma_started_ens_contents(post.sched(), t.gid);
}

} // verus!
