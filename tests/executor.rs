use crossbeam_queue::ArrayQueue;
use furnace_core::executor::{spawn_outcome, spawn_task, DuplicateTask, Executor, Pollable, SpawnError, TaskWaker, TASK_CAPACITY};
use std::cell::RefCell;
use std::rc::Rc;
use std::sync::Arc;
use furnace_core::simple_executor::SimpleExecutor;
use furnace_core::task::{Task, TaskId, TaskIdCounter};

fn task(id: u64) -> Task<&'static str> {
    Task::new(TaskId(id), "work")
}

fn ready_order(e: &mut Executor<&'static str, ()>) -> Vec<u64> {
    let mut ids = Vec::new();
    while let Some(t) = e.pop_ready() {
        ids.push(t.id.0);
        assert_eq!(e.finish_poll(t, false), Ok(()));
    }
    ids
}

#[test]
fn test_task_spawn_exec() {
    let mut executor: Executor<&'static str, ()> = Executor::new().spawn(task(0));
    assert!(executor.pop_ready().is_some());
}

#[test]
fn spawned_tasks_run_in_submission_order() {
    let mut e: Executor<&'static str, ()> = Executor::new().spawn(task(1)).spawn(task(2)).spawn(task(3));
    assert_eq!(ready_order(&mut e), vec![1, 2, 3]);
}

#[test]
fn tasks_spawned_from_outside_join_after_queued_ones() {
    let mut e: Executor<&'static str, ()> = Executor::new().spawn(task(1));
    let inbox = e.spawner();
    assert_eq!(spawn_task(Some(&inbox), task(2)), Ok(()));
    assert_eq!(spawn_task(Some(&inbox), task(3)), Ok(()));
    assert_eq!(e.run_spawned(), Ok(()));
    assert_eq!(ready_order(&mut e), vec![1, 2, 3]);
}

#[test]
fn spawn_without_executor_fails() {
    assert_eq!(spawn_task::<&'static str>(None, task(1)), Err(SpawnError::ExecutorNotInitialized));
}

#[test]
fn woken_task_is_polled_again() {
    let mut e: Executor<&'static str, ()> = Executor::new().spawn(task(7)).spawn(task(8));
    let t = e.pop_ready().unwrap();
    assert_eq!(t.id, TaskId(7));
    assert_eq!(e.finish_poll(t, true), Ok(()));
    assert!(e.wake_handle().push(7).is_ok());
    assert!(!e.wake_queue_is_empty());
    e.wake_tasks();
    assert!(e.wake_queue_is_empty());
    assert_eq!(ready_order(&mut e), vec![8, 7]);
}

#[test]
fn wake_moves_waiting_task_once() {
    let mut e: Executor<&'static str, ()> = Executor::new().spawn(task(4));
    let t = e.pop_ready().unwrap();
    assert_eq!(e.finish_poll(t, true), Ok(()));
    e.wake(4);
    e.wake(4);
    e.wake(99);
    assert_eq!(ready_order(&mut e), vec![4]);
}

#[test]
fn pending_tasks_never_collide_under_correct_use() {
    let mut e: Executor<&'static str, ()> = Executor::new();
    for i in 0..20u64 {
        e = e.spawn(task(i));
    }
    for round in 0..5u64 {
        while let Some(t) = e.pop_ready() {
            let pending = (t.id.0 + round) % 2 == 0;
            assert_eq!(e.finish_poll(t, pending), Ok(()));
        }
        for i in 0..20u64 {
            e.wake(i);
        }
    }
}

#[test]
fn duplicate_waiting_task_is_reported() {
    let mut e: Executor<&'static str, ()> = Executor::new();
    assert_eq!(e.finish_poll(task(5), true), Ok(()));
    assert_eq!(e.finish_poll(task(5), true), Err(DuplicateTask(TaskId(5))));
}

#[test]
fn wakers_are_cached_until_the_task_finishes() {
    let mut e: Executor<&'static str, u8> = Executor::new().spawn(task(3));
    let t = e.pop_ready().unwrap();
    assert!(!e.has_waker(3));
    e.cache_waker(3, 42);
    assert_eq!(e.waker(3), Some(&42));
    assert_eq!(e.finish_poll(t, false), Ok(()));
    assert!(!e.has_waker(3));
    assert_eq!(e.waker(3), None);
}

#[test]
fn simple_executor_requeues_pending_tasks() {
    let mut s = SimpleExecutor::new().spawn(task(1)).spawn(task(2));
    let t = s.pop_ready().unwrap();
    assert_eq!(t.id, TaskId(1));
    s.finish_poll(t, true);
    let t = s.pop_ready().unwrap();
    assert_eq!(t.id, TaskId(2));
    s.finish_poll(t, false);
    let t = s.pop_ready().unwrap();
    assert_eq!(t.id, TaskId(1));
    s.finish_poll(t, false);
    assert!(s.pop_ready().is_none());
}

#[test]
fn task_ids_are_fresh() {
    let mut c = TaskIdCounter::new();
    assert_eq!(c.next_id(), Some(TaskId(0)));
    assert_eq!(c.next_id(), Some(TaskId(1)));
    assert_eq!(c.next_id(), Some(TaskId(2)));
}

struct IdWaker {
    id: u64,
    queue: Arc<ArrayQueue<u64>>,
}

impl TaskWaker for IdWaker {
    fn new_waker(task_id: u64, wake_queue: Arc<ArrayQueue<u64>>) -> Self {
        IdWaker { id: task_id, queue: wake_queue }
    }
}

/// Pending until polled `left + 1` times; wakes itself each time it is
/// pending, and records every poll.
struct Countdown {
    id: u64,
    left: u32,
    log: Rc<RefCell<Vec<u64>>>,
}

impl Pollable<IdWaker> for Countdown {
    fn poll_task(&mut self, waker: &IdWaker) -> bool {
        assert_eq!(waker.id, self.id);
        self.log.borrow_mut().push(self.id);
        if self.left == 0 {
            false
        } else {
            self.left -= 1;
            assert!(waker.queue.push(waker.id).is_ok());
            true
        }
    }
}

fn countdown(id: u64, left: u32, log: &Rc<RefCell<Vec<u64>>>) -> Task<Countdown> {
    Task::new(TaskId(id), Countdown { id, left, log: log.clone() })
}

#[test]
fn one_pump_polls_spawned_tasks_in_order() {
    let log = Rc::new(RefCell::new(Vec::new()));
    let mut e: Executor<Countdown, IdWaker> = Executor::new()
        .spawn(countdown(1, 0, &log))
        .spawn(countdown(2, 0, &log))
        .spawn(countdown(3, 0, &log));
    assert_eq!(e.run_ready_tasks(), Ok(()));
    assert_eq!(*log.borrow(), vec![1, 2, 3]);
    assert!(!e.has_waker(1) && !e.has_waker(2) && !e.has_waker(3));
}

#[test]
fn pending_tasks_are_polled_again_after_their_wake() {
    let log = Rc::new(RefCell::new(Vec::new()));
    let mut e: Executor<Countdown, IdWaker> = Executor::new().spawn(countdown(1, 2, &log)).spawn(countdown(2, 0, &log));
    assert_eq!(e.run_ready_tasks(), Ok(()));
    assert_eq!(*log.borrow(), vec![1, 2]);
    assert!(e.has_waker(1));
    e.wake_tasks();
    assert_eq!(e.run_ready_tasks(), Ok(()));
    e.wake_tasks();
    assert_eq!(e.run_ready_tasks(), Ok(()));
    e.wake_tasks();
    assert_eq!(e.run_ready_tasks(), Ok(()));
    assert_eq!(*log.borrow(), vec![1, 2, 1, 1]);
    assert!(!e.has_waker(1));
    assert!(e.wake_queue_is_empty());
}

#[test]
fn many_alternating_tasks_never_collide() {
    let log = Rc::new(RefCell::new(Vec::new()));
    let mut e: Executor<Countdown, IdWaker> = Executor::new();
    for i in 0..50u64 {
        e = e.spawn(countdown(i, (i % 4) as u32, &log));
    }
    let inbox = e.spawner();
    for i in 50..60u64 {
        assert_eq!(spawn_task(Some(&inbox), countdown(i, 1, &log)), Ok(()));
    }
    for _ in 0..6 {
        assert_eq!(e.run_ready_tasks(), Ok(()));
    }
    let total: usize = (0..50u64).map(|i| (i % 4) as usize + 1).sum::<usize>() + 10 * 2;
    assert_eq!(log.borrow().len(), total);
}

#[test]
fn spawned_inbox_tasks_run_in_submission_order() {
    let log = Rc::new(RefCell::new(Vec::new()));
    let mut e: Executor<Countdown, IdWaker> = Executor::new();
    let inbox = e.spawner();
    for id in [1, 2, 3] {
        assert_eq!(spawn_task(Some(&inbox), countdown(id, 0, &log)), Ok(()));
    }
    assert_eq!(e.run_ready_tasks(), Ok(()));
    assert_eq!(*log.borrow(), vec![1, 2, 3]);
}

#[test]
fn poll_front_files_tasks_by_outcome() {
    let log = Rc::new(RefCell::new(Vec::new()));
    let mut e: Executor<Countdown, IdWaker> = Executor::new().spawn(countdown(1, 1, &log)).spawn(countdown(2, 0, &log));
    assert_eq!(e.poll_front(), Some(Ok(true)));
    assert!(e.has_waker(1) && e.is_outstanding(1));
    assert_eq!(e.poll_front(), Some(Ok(false)));
    assert!(!e.has_waker(2) && !e.is_outstanding(2));
    assert_eq!(e.poll_front(), None);
}

#[test]
fn spawning_an_outstanding_id_is_reported() {
    let log = Rc::new(RefCell::new(Vec::new()));
    let mut e: Executor<Countdown, IdWaker> = Executor::new().spawn(countdown(4, 0, &log));
    let inbox = e.spawner();
    assert_eq!(spawn_task(Some(&inbox), countdown(4, 0, &log)), Ok(()));
    assert_eq!(e.run_ready_tasks(), Err(DuplicateTask(TaskId(4))));
}

#[test]
fn full_spawn_queue_is_reported() {
    let e: Executor<&'static str, ()> = Executor::new();
    let inbox = e.spawner();
    for i in 0..TASK_CAPACITY as u64 {
        assert_eq!(spawn_task(Some(&inbox), task(i)), Ok(()));
    }
    assert_eq!(spawn_task(Some(&inbox), task(5000)), Err(SpawnError::QueueFull));
    assert_eq!(spawn_outcome::<u8>(Ok(())), Ok(()));
    assert_eq!(spawn_outcome(Err(Task::new(TaskId(1), 0u8))), Err(SpawnError::QueueFull));
}

#[test]
fn admit_spawned_rejects_outstanding_ids() {
    let mut e: Executor<&'static str, ()> = Executor::new().spawn(task(1));
    assert_eq!(e.admit_spawned(task(2)), Ok(()));
    assert_eq!(e.admit_spawned(task(1)), Err(DuplicateTask(TaskId(1))));
    let t = e.pop_ready().unwrap();
    assert_eq!(e.finish_poll(t, true), Ok(()));
    assert_eq!(e.admit_spawned(task(1)), Err(DuplicateTask(TaskId(1))));
    assert_eq!(ready_order(&mut e), vec![2]);
}
