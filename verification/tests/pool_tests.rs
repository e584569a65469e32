use std::sync::mpsc::channel;

use taskpool::Context;
use taskpool::ContextFactory;
use taskpool::FifoQueue;
use taskpool::Poll;
use taskpool::ScheduleQueue;
use taskpool::Task;
use taskpool::TaskPool;

#[derive(Clone)]
struct DummyContext {}

impl Context for DummyContext {
    fn get(&self, _: &str) -> u64 {
        1
    }
    fn set(&mut self, _: &str, _: u64) {}
    fn on_start(&self) {}
    fn on_complete(&self) {}
}

struct DummyContextFactory {}

impl ContextFactory<DummyContext> for DummyContextFactory {
    fn create_context(&self) -> DummyContext {
        DummyContext {}
    }
}

#[test]
fn test_fifo_queue() {
    let mut queue = FifoQueue::new();
    let f = DummyContextFactory {};
    for id in 0..10 {
        let mut task = Task::new(0, move |_: DummyContext| {}, f.create_context());
        task.id = id;
        queue.push(task);
    }
    for id in 0..10 {
        let task = queue.pop().unwrap();
        assert_eq!(id, task.id);
    }
}

#[test]
fn test_fifo_queue_empty_pop() {
    let mut queue: FifoQueue<u64, DummyContext, u32> = FifoQueue::new();
    assert_eq!(queue.len(), 0);
    assert!(queue.pop().is_none());
    queue.push(Task::new(7, 99, DummyContext {}));
    assert_eq!(queue.len(), 1);
    let t = queue.pop().unwrap();
    assert_eq!(t.gid, 7);
    assert_eq!(t.job, 99);
    assert!(queue.pop().is_none());
}

#[test]
fn test_fifo_queue_hooks_keep_order() {
    let mut queue: FifoQueue<u64, DummyContext, u64> = FifoQueue::new();
    for id in 0..5u64 {
        let mut task = Task::new(id % 2, id * 10, DummyContext {});
        task.id = id;
        queue.push(task);
        queue.on_task_started(&(id % 2));
        queue.on_task_finished(&(id % 2));
    }
    for id in 0..5u64 {
        let task = queue.pop().unwrap();
        assert_eq!(task.id, id);
        assert_eq!(task.job, id * 10);
    }
}

#[test]
fn test_task_new_leaves_id_unset() {
    let t = Task::new(42u64, 5u32, DummyContext {});
    assert_eq!(t.id, 0);
    assert_eq!(t.gid, 42);
    assert_eq!(t.job, 5);
}

#[test]
fn test_task_priority_order_is_reverse_id_order() {
    let mut a: Task<u64, DummyContext, u32> = Task::new(1, 0, DummyContext {});
    let mut b: Task<u64, DummyContext, u32> = Task::new(1, 0, DummyContext {});
    a.id = 3;
    b.id = 8;
    // The earlier-assigned task is the greater one for a max-first structure.
    assert_eq!(a.cmp(&b), std::cmp::Ordering::Greater);
    assert_eq!(b.cmp(&a), std::cmp::Ordering::Less);
    assert!(a > b);
    assert!(b < a);
    assert!(a != b);
    b.id = 3;
    assert_eq!(a.cmp(&b), std::cmp::Ordering::Equal);
    assert!(a == b);
}

#[test]
fn test_pop_task_stamps_ids_in_arrival_order() {
    let (tx, rx) = channel();
    for gid in 0..6u64 {
        tx.send(Task::new(gid, (), DummyContext {})).unwrap();
    }
    let mut pool = TaskPool::new(FifoQueue::new(), rx);
    for expect in 0..6u64 {
        let (popped, _) = pool.pop_task();
        let task = popped.unwrap();
        assert_eq!(task.id, expect);
        assert_eq!(task.gid, expect);
    }
    let (popped, _) = pool.pop_task();
    assert!(popped.is_none());
}

#[test]
fn test_pop_task_drains_in_batches() {
    let (tx, rx) = channel();
    let mut pool = TaskPool::new(FifoQueue::new(), rx);
    let (none, _) = pool.pop_task();
    assert!(none.is_none());
    tx.send(Task::new(10u64, (), DummyContext {})).unwrap();
    tx.send(Task::new(11u64, (), DummyContext {})).unwrap();
    let (first, _) = pool.pop_task();
    assert_eq!(first.unwrap().id, 0);
    tx.send(Task::new(12u64, (), DummyContext {})).unwrap();
    // The queued task from the first drain leaves before the later arrival.
    let (second, _) = pool.pop_task();
    let second = second.unwrap();
    assert_eq!(second.id, 1);
    assert_eq!(second.gid, 11);
    let (third, _) = pool.pop_task();
    let third = third.unwrap();
    assert_eq!(third.id, 2);
    assert_eq!(third.gid, 12);
}

#[test]
fn test_no_task_lost_or_duplicated() {
    let (tx, rx) = channel();
    let total = 100u64;
    for gid in 0..total {
        tx.send(Task::new(gid, (), DummyContext {})).unwrap();
    }
    drop(tx);
    let mut pool = TaskPool::new(FifoQueue::new(), rx);
    let mut seen = vec![false; total as usize];
    let mut count = 0u64;
    loop {
        let (popped, _) = pool.pop_task();
        match popped {
            Some(task) => {
                assert!(!seen[task.id as usize]);
                seen[task.id as usize] = true;
                count += 1;
            }
            None => break,
        }
    }
    assert_eq!(count, total);
    assert!(seen.iter().all(|s| *s));
}

#[test]
fn test_stop_flag() {
    let (_tx, rx) = channel::<Task<u64, DummyContext, ()>>();
    let mut pool = TaskPool::new(FifoQueue::new(), rx);
    assert!(!pool.is_stopped());
    pool.stop();
    assert!(pool.is_stopped());
}

#[test]
fn test_stopped_pool_hands_out_nothing() {
    let (tx, rx) = channel();
    // Queued but never started: after stop, none of them is handed out.
    for gid in 0..4u64 {
        tx.send(Task::new(gid, (), DummyContext {})).unwrap();
    }
    let mut pool = TaskPool::new(FifoQueue::new(), rx);
    pool.stop();
    let (polled, _, _) = pool.poll_task();
    assert!(matches!(polled, Poll::Stopped));
    let (again, _, _) = pool.poll_task();
    assert!(matches!(again, Poll::Stopped));
}

#[test]
fn test_poll_task_ready_then_empty() {
    let (tx, rx) = channel();
    tx.send(Task::new(5u64, (), DummyContext {})).unwrap();
    let mut pool = TaskPool::new(FifoQueue::new(), rx);
    let (polled, _, _) = pool.poll_task();
    match polled {
        Poll::Ready(task) => {
            assert_eq!(task.id, 0);
            assert_eq!(task.gid, 5);
        }
        _ => panic!("expected a task"),
    }
    let (polled, _, _) = pool.poll_task();
    assert!(matches!(polled, Poll::Empty));
}

#[test]
fn test_collect_join_errors() {
    assert_eq!(taskpool::collect_join_errors(vec![]), Ok(()));
    // An empty report amounts to nothing, as for a shutdown with no failures.
    assert_eq!(taskpool::collect_join_errors(vec![String::new()]), Ok(()));
    let combined = taskpool::collect_join_errors(vec![
        String::from("Failed to join thread with err: Any { .. };"),
        String::from("Failed to join thread with err: Any { .. };"),
    ]);
    assert_eq!(
        combined,
        Err(String::from(
            "Failed to join thread with err: Any { .. };Failed to join thread with err: Any { .. };"
        ))
    );
}

#[test]
fn test_context_store() {
    let mut ctx = DummyContext {};
    ctx.set("elapsed", 17);
    assert_eq!(ctx.get("elapsed"), 1);
    let made = DummyContextFactory {}.create_context();
    assert_eq!(made.get("anything"), 1);
}
