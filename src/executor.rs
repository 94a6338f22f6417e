//! Cooperative FIFO executor with wakers.
//!
//! The executor keeps every outstanding task in exactly one place: the ready
//! queue, the waiting map, or the hands of whoever is polling it. The
//! computations are opaque here and are polled through `Pollable`, which the
//! runtime implements. `run_ready_tasks` is one scheduling pass: it drains
//! the spawn queue, then the wake queue, then polls the ready queue with
//! `poll_front`, one task at a time. The spawn and wake queues are bounded;
//! a full queue is reported to whoever pushes.
use crate::queue::{array_is_empty, array_len, array_new, array_pop, array_push, share};
use crate::task::{Task, TaskId};
use std::collections::{BTreeMap, VecDeque};
use std::sync::Arc;
use vstd::prelude::*;

verus! {

broadcast use vstd::laws_cmp::group_laws_cmp;

/// The identifiers of a sequence of tasks, in order.
pub open spec fn ids_of<F>(tasks: Seq<Task<F>>) -> Seq<u64> {
    tasks.map_values(|t: Task<F>| t.id.0)
}

/// The scheduling state is consistent: no identifier is queued twice, and no
/// queued identifier is also waiting.
pub open spec fn consistent(ready: Seq<u64>, waiting: Set<u64>) -> bool {
    &&& ready.no_duplicates()
    &&& forall|i: int| 0 <= i < ready.len() ==> !waiting.contains(#[trigger] ready[i])
}

/// A wake for `id`: a waiting task moves to the back of the ready queue; a
/// wake for any other identifier changes nothing.
pub open spec fn woken_ready(ready: Seq<u64>, waiting: Set<u64>, id: u64) -> Seq<u64> {
    if waiting.contains(id) {
        ready.push(id)
    } else {
        ready
    }
}

/// The waiting set after a wake for `id`.
pub open spec fn woken_waiting(waiting: Set<u64>, id: u64) -> Set<u64> {
    waiting.remove(id)
}

/// The task at the front of the ready queue was polled and is still pending:
/// it leaves the queue and starts waiting.
pub open spec fn parked_waiting(ready: Seq<u64>, waiting: Set<u64>) -> Set<u64> {
    waiting.insert(ready[0])
}

/// Returned when a pending task's identifier is already in the waiting map:
/// the scheduler's bookkeeping is broken.
#[derive(Debug, Clone, Copy, PartialEq, Eq, Structural)]
pub struct DuplicateTask(pub TaskId);

/// Capacity of the spawn queue and of the wake queue: the number of tasks
/// that may be spawned, or woken, between two scheduling passes.
pub const TASK_CAPACITY: usize = 1024;

/// Error of `spawn_task`.
#[derive(Debug, Clone, Copy, PartialEq, Eq, Structural)]
pub enum SpawnError {
    /// No executor has published its spawn queue yet.
    ExecutorNotInitialized,
    /// The spawn queue is full: the task was dropped.
    QueueFull,
}

/// The outcome of `spawn_task`, given what pushing the task returned.
pub fn spawn_outcome<F>(pushed: Result<(), Task<F>>) -> (r: Result<(), SpawnError>)
    ensures
        pushed is Ok ==> r is Ok,
        pushed is Err ==> r == Err::<(), SpawnError>(SpawnError::QueueFull),
{
    match pushed {
        Ok(()) => Ok(()),
        Err(_) => Err(SpawnError::QueueFull),
    }
}

/// Queues `task` on a running executor through its published spawn queue.
///
/// `registry` is the spawn queue that the executor published, or `None`
/// while no executor has been created. A full queue drops the task; see
/// `spawn_outcome`.
pub fn spawn_task<F>(registry: Option<&Arc<crossbeam_queue::ArrayQueue<Task<F>>>>, task: Task<F>) -> (r:
    Result<(), SpawnError>)
    ensures
        registry is None <==> r == Err::<(), SpawnError>(SpawnError::ExecutorNotInitialized),
        registry is Some ==> r is Ok || r == Err::<(), SpawnError>(SpawnError::QueueFull),
{
    match registry {
        Some(queue) => spawn_outcome(array_push(&**queue, task)),
        None => Err(SpawnError::ExecutorNotInitialized),
    }
}

/// A computation that the executor drives by polling.
pub trait Pollable<W> {
    /// Advances the computation; returns `true` while it is still pending, in
    /// which case `waker` is woken once it can make progress again.
    fn poll_task(&mut self, waker: &W) -> bool;
}

/// A waker that, when woken, pushes its task's identifier to a wake queue.
pub trait TaskWaker: Sized {
    /// The waker of task `task_id`, pushing to `wake_queue`.
    fn new_waker(task_id: u64, wake_queue: Arc<crossbeam_queue::ArrayQueue<u64>>) -> Self;
}

/// A FIFO executor of tasks of computation type `F`, whose wakers have type
/// `W`.
#[verifier::reject_recursive_types(F)]
#[verifier::reject_recursive_types(W)]
pub struct Executor<F, W> {
    task_queue: VecDeque<Task<F>>,
    waiting_for_task_queue: Arc<crossbeam_queue::ArrayQueue<Task<F>>>,
    waiting_tasks: BTreeMap<u64, Task<F>>,
    wake_queue: Arc<crossbeam_queue::ArrayQueue<u64>>,
    waker_cache: BTreeMap<u64, W>,
}

impl<F, W> Executor<F, W> {
    /// The ready queue, front first.
    pub closed spec fn ready(&self) -> Seq<Task<F>> {
        self.task_queue@
    }

    /// The identifiers in the ready queue, front first.
    pub open spec fn ready_ids(&self) -> Seq<u64> {
        ids_of(self.ready())
    }

    /// The suspended tasks, by identifier.
    pub closed spec fn waiting(&self) -> Map<u64, Task<F>> {
        self.waiting_tasks@
    }

    /// The identifiers of the suspended tasks.
    pub open spec fn waiting_ids(&self) -> Set<u64> {
        self.waiting().dom()
    }

    /// The cached wakers, by identifier.
    pub closed spec fn wakers(&self) -> Map<u64, W> {
        self.waker_cache@
    }

    /// A waker is cached only for an outstanding task: one that is ready or
    /// waiting.
    pub open spec fn wakers_tracked(&self) -> bool {
        forall|id: u64| #[trigger]
            self.wakers().contains_key(id) ==> self.waiting_ids().contains(id) || self.ready_ids().contains(id)
    }

    /// Every waiting task has a cached waker.
    pub open spec fn waiting_covered(&self) -> bool {
        forall|id: u64| #[trigger] self.waiting().contains_key(id) ==> self.wakers().contains_key(id)
    }

    /// Every suspended task is filed under its own identifier.
    pub open spec fn wf(&self) -> bool {
        forall|k: u64| #[trigger] self.waiting().contains_key(k) ==> self.waiting()[k].id.0 == k
    }

    /// An executor with no tasks, no wakers and empty spawn and wake queues.
    pub fn new() -> (r: Self)
        ensures
            r.wf(),
            r.ready() == Seq::<Task<F>>::empty(),
            r.waiting() == Map::<u64, Task<F>>::empty(),
            r.wakers() == Map::<u64, W>::empty(),
            r.wakers_tracked(),
    {
        Executor {
            task_queue: VecDeque::new(),
            waiting_for_task_queue: Arc::new(array_new(TASK_CAPACITY)),
            waiting_tasks: BTreeMap::new(),
            wake_queue: Arc::new(array_new(TASK_CAPACITY)),
            waker_cache: BTreeMap::new(),
        }
    }

    /// Queues `task` at the back of the ready queue.
    pub fn spawn(self, task: Task<F>) -> (r: Self)
        ensures
            r.ready() == self.ready().push(task),
            r.waiting() == self.waiting(),
            r.wakers() == self.wakers(),
            self.wf() ==> r.wf(),
            self.wakers_tracked() ==> r.wakers_tracked(),
    {
        let mut s = self;
        s.task_queue.push_back(task);
        assert(s.waiting() == self.waiting());
        assert forall|x: u64| self.ready_ids().contains(x) implies #[trigger] s.ready_ids().contains(x) by {
            let i = choose|i: int| 0 <= i < self.ready_ids().len() && self.ready_ids()[i] == x;
            assert(s.ready_ids()[i] == x);
        }
        s
    }

    /// The queue through which tasks are spawned from outside the executor;
    /// `spawn_task` pushes to it and `run_spawned` drains it.
    pub fn spawner(&self) -> Arc<crossbeam_queue::ArrayQueue<Task<F>>> {
        share(&self.waiting_for_task_queue)
    }

    /// The queue to which wakers push the identifiers of tasks to wake.
    pub fn wake_handle(&self) -> Arc<crossbeam_queue::ArrayQueue<u64>> {
        share(&self.wake_queue)
    }

    /// Whether no wake is pending. Whoever parks the processor tests this
    /// with interrupts disabled.
    pub fn wake_queue_is_empty(&self) -> bool {
        array_is_empty(&*self.wake_queue)
    }

    /// Whether a task with identifier `id` is outstanding: ready or waiting.
    pub fn is_outstanding(&self, id: u64) -> (r: bool)
        ensures
            r == (self.waiting().contains_key(id) || self.ready_ids().contains(id)),
    {
        if self.waiting_tasks.contains_key(&id) {
            return true;
        }
        let mut i: usize = 0;
        while i < self.task_queue.len()
            invariant
                i <= self.ready().len(),
                forall|j: int| 0 <= j < i ==> self.ready_ids()[j] != id,
            decreases self.ready().len() - i,
        {
            if self.task_queue[i].id.0 == id {
                assert(self.ready_ids()[i as int] == id);
                return true;
            }
            i += 1;
        }
        false
    }

    /// Takes a task drained from the spawn queue: it joins the back of the
    /// ready queue, unless its identifier is already outstanding, which
    /// breaks the uniqueness of identifiers: the task is then dropped and
    /// reported, and nothing changes.
    pub fn admit_spawned(&mut self, task: Task<F>) -> (r: Result<(), DuplicateTask>)
        ensures
            r is Err <==> old(self).waiting().contains_key(task.id.0) || old(self).ready_ids().contains(
                task.id.0,
            ),
            r is Err ==> r == Err::<(), DuplicateTask>(DuplicateTask(task.id)),
            r is Ok ==> final(self).ready() == old(self).ready().push(task),
            r is Err ==> final(self).ready() == old(self).ready(),
            final(self).waiting() == old(self).waiting(),
            final(self).wakers() == old(self).wakers(),
            old(self).wf() ==> final(self).wf(),
            old(self).wakers_tracked() ==> final(self).wakers_tracked(),
            consistent(old(self).ready_ids(), old(self).waiting_ids()) ==> consistent(
                final(self).ready_ids(),
                final(self).waiting_ids(),
            ),
    {
        let id = task.id.0;
        if self.is_outstanding(id) {
            return Err(DuplicateTask(task.id));
        }
        let ghost before_ids = self.ready_ids();
        let ghost waiting0 = self.waiting_ids();
        self.task_queue.push_back(task);
        assert(self.ready_ids() =~= before_ids.push(id));
        assert forall|x: u64| before_ids.contains(x) implies #[trigger] self.ready_ids().contains(x) by {
            let i = choose|i: int| 0 <= i < before_ids.len() && before_ids[i] == x;
            assert(self.ready_ids()[i] == x);
        }
        proof {
            if consistent(before_ids, waiting0) {
                lemma_spawn_keeps_consistent(before_ids, waiting0, id);
            }
        }
        Ok(())
    }

    /// Moves the tasks spawned through the spawn queue to the back of the
    /// ready queue, in the order in which they were spawned, each with
    /// `admit_spawned`. Tasks spawned while this runs may wait for the next
    /// call. Draining stops at the first duplicate, which is returned.
    pub fn run_spawned(&mut self) -> (r: Result<(), DuplicateTask>)
        ensures
            old(self).wf() ==> final(self).wf(),
            final(self).ready().len() >= old(self).ready().len(),
            final(self).ready().subrange(0, old(self).ready().len() as int) == old(self).ready(),
            final(self).waiting() == old(self).waiting(),
            final(self).wakers() == old(self).wakers(),
            old(self).wakers_tracked() ==> final(self).wakers_tracked(),
            consistent(old(self).ready_ids(), old(self).waiting_ids()) ==> consistent(
                final(self).ready_ids(),
                final(self).waiting_ids(),
            ),
            r matches Err(d) ==> final(self).waiting().contains_key(d.0.0) || final(self).ready_ids().contains(d.0.0),
    {
        let n = array_len(&*self.waiting_for_task_queue);
        let mut i: usize = 0;
        while i < n
            invariant
                old(self).wf() ==> self.wf(),
                self.ready().len() >= old(self).ready().len(),
                self.ready().subrange(0, old(self).ready().len() as int) == old(self).ready(),
                self.waiting() == old(self).waiting(),
                self.wakers() == old(self).wakers(),
                old(self).wakers_tracked() ==> self.wakers_tracked(),
                consistent(old(self).ready_ids(), old(self).waiting_ids()) ==> consistent(
                    self.ready_ids(),
                    self.waiting_ids(),
                ),
            decreases n - i,
        {
            match array_pop(&*self.waiting_for_task_queue) {
                Some(task) => {
                    let ghost before = self.ready();
                    let r = self.admit_spawned(task);
                    if r.is_err() {
                        return r;
                    }
                    assert(self.ready().subrange(0, old(self).ready().len() as int)
                        =~= before.subrange(0, old(self).ready().len() as int));
                },
                None => {
                    break;
                },
            }
            i += 1;
        }
        Ok(())
    }

    /// Handles a wake for `id`: a waiting task with that identifier moves to
    /// the back of the ready queue; any other wake is a no-op.
    pub fn wake(&mut self, id: u64)
        requires
            old(self).wf(),
        ensures
            final(self).wf(),
            final(self).ready_ids() == woken_ready(old(self).ready_ids(), old(self).waiting_ids(), id),
            final(self).waiting_ids() == woken_waiting(old(self).waiting_ids(), id),
            old(self).waiting().contains_key(id) ==> final(self).ready() == old(self).ready().push(
                old(self).waiting()[id],
            ),
            !old(self).waiting().contains_key(id) ==> final(self).ready() == old(self).ready(),
            final(self).waiting() == old(self).waiting().remove(id),
            final(self).wakers() == old(self).wakers(),
            old(self).wakers_tracked() ==> final(self).wakers_tracked(),
    {
        match self.waiting_tasks.remove(&id) {
            Some(task) => {
                assert(old(self).waiting().contains_key(id));
                assert(task.id.0 == id);
                self.task_queue.push_back(task);
                assert(self.ready_ids() =~= old(self).ready_ids().push(id));
            },
            None => {
                assert(self.waiting() =~= old(self).waiting().remove(id));
            },
        }
        assert(self.waiting_ids() =~= woken_waiting(old(self).waiting_ids(), id));
        proof {
            if old(self).wakers_tracked() {
                assert forall|x: u64| #[trigger]
                    self.wakers().contains_key(x) implies self.waiting_ids().contains(x)
                    || self.ready_ids().contains(x) by {
                    assert(old(self).wakers().contains_key(x));
                    if old(self).ready_ids().contains(x) {
                        let i = choose|i: int| 0 <= i < old(self).ready_ids().len() && old(self).ready_ids()[i] == x;
                        assert(self.ready_ids()[i] == x);
                    } else if x == id {
                        assert(self.ready_ids().last() == x);
                    }
                }
            }
        }
    }

    /// Handles every wake pending in the wake queue, in the order in which the
    /// wakes were pushed. Wakes pushed while this runs may wait for the next
    /// call.
    pub fn wake_tasks(&mut self)
        requires
            old(self).wf(),
        ensures
            final(self).wf(),
            consistent(old(self).ready_ids(), old(self).waiting_ids()) ==> consistent(
                final(self).ready_ids(),
                final(self).waiting_ids(),
            ),
            final(self).wakers() == old(self).wakers(),
            old(self).wakers_tracked() ==> final(self).wakers_tracked(),
            old(self).waiting_covered() ==> final(self).waiting_covered(),
            final(self).waiting_ids().union(final(self).ready_ids().to_set()) == old(self).waiting_ids().union(old(self).ready_ids().to_set()),
            final(self).ready().len() >= old(self).ready().len(),
            final(self).ready().subrange(0, old(self).ready().len() as int) == old(self).ready(),
    {
        let n = array_len(&*self.wake_queue);
        let mut i: usize = 0;
        while i < n
            invariant
                self.wf(),
                consistent(old(self).ready_ids(), old(self).waiting_ids()) ==> consistent(
                    self.ready_ids(),
                    self.waiting_ids(),
                ),
                self.wakers() == old(self).wakers(),
                old(self).wakers_tracked() ==> self.wakers_tracked(),
                old(self).waiting_covered() ==> self.waiting_covered(),
                self.waiting_ids().union(self.ready_ids().to_set()) == old(self).waiting_ids().union(
                    old(self).ready_ids().to_set(),
                ),
                self.ready().len() >= old(self).ready().len(),
                self.ready().subrange(0, old(self).ready().len() as int) == old(self).ready(),
            decreases n - i,
        {
            match array_pop(&*self.wake_queue) {
                Some(id) => {
                    let ghost r0 = self.ready_ids();
                    let ghost w0 = self.waiting_ids();
                    let ghost before = self.ready();
                    self.wake(id);
                    assert(self.ready().subrange(0, old(self).ready().len() as int)
                        =~= before.subrange(0, old(self).ready().len() as int));
                    proof {
                        lemma_wake_keeps_consistent(r0, w0, id);
                        lemma_wake_keeps_outstanding(r0, w0, id);
                    }
                },
                None => {
                    break;
                },
            }
            i += 1;
        }
    }

    /// Takes the task at the front of the ready queue, to be polled.
    pub fn pop_ready(&mut self) -> (r: Option<Task<F>>)
        ensures
            old(self).ready().len() == 0 ==> r is None && final(self).ready() == old(self).ready(),
            old(self).ready().len() > 0 ==> r == Some(old(self).ready()[0]) && final(self).ready()
                == old(self).ready().drop_first(),
            final(self).waiting() == old(self).waiting(),
            final(self).wakers() == old(self).wakers(),
            old(self).wf() ==> final(self).wf(),
    {
        self.task_queue.pop_front()
    }

    /// Whether a waker is cached for `id`.
    pub fn has_waker(&self, id: u64) -> (r: bool)
        ensures
            r == self.wakers().contains_key(id),
    {
        self.waker_cache.contains_key(&id)
    }

    /// Caches `waker` as the waker of the task `id`.
    pub fn cache_waker(&mut self, id: u64, waker: W)
        ensures
            final(self).wakers() == old(self).wakers().insert(id, waker),
            final(self).ready() == old(self).ready(),
            final(self).waiting() == old(self).waiting(),
    {
        self.waker_cache.insert(id, waker);
    }

    /// The cached waker of the task `id`, if any.
    pub fn waker(&self, id: u64) -> (r: Option<&W>)
        ensures
            self.wakers().contains_key(id) ==> r == Some(&self.wakers()[id]),
            !self.wakers().contains_key(id) ==> r is None,
    {
        self.waker_cache.get(&id)
    }

    /// Takes back a task that was polled.
    ///
    /// A finished task is dropped and its waker evicted. A pending task is
    /// filed in the waiting map, unless a task with its identifier is already
    /// waiting: that cannot happen while the state is consistent (see
    /// `lemma_no_duplicate_park`), and is reported as `DuplicateTask`.
    pub fn finish_poll(&mut self, task: Task<F>, pending: bool) -> (r: Result<(), DuplicateTask>)
        requires
            old(self).wf(),
        ensures
            final(self).wf(),
            final(self).ready() == old(self).ready(),
            !pending ==> {
                &&& r is Ok
                &&& final(self).waiting() == old(self).waiting()
                &&& final(self).wakers() == old(self).wakers().remove(task.id.0)
            },
            pending ==> final(self).wakers() == old(self).wakers(),
            pending && !old(self).waiting().contains_key(task.id.0) ==> {
                &&& r is Ok
                &&& final(self).waiting() == old(self).waiting().insert(task.id.0, task)
            },
            pending && old(self).waiting().contains_key(task.id.0) ==> {
                &&& r == Err::<(), DuplicateTask>(DuplicateTask(task.id))
                &&& final(self).waiting() == old(self).waiting()
            },
    {
        let id = task.id.0;
        assert(vstd::laws_cmp::obeys_cmp::<u64>());
        if !pending {
            self.waker_cache.remove(&id);
            assert(self.waiting() == old(self).waiting());
            return Ok(());
        }
        if self.waiting_tasks.contains_key(&id) {
            return Err(DuplicateTask(task.id));
        }
        self.waiting_tasks.insert(id, task);
        assert forall|k: u64| #[trigger] self.waiting().contains_key(k) implies self.waiting()[k].id.0
            == k by {
            if k != id {
                assert(old(self).waiting().contains_key(k));
            }
        }
        Ok(())
    }
}

impl<F: Pollable<W>, W: TaskWaker> Executor<F, W> {
    /// What polling leaves of the task `t` that was at the front of the ready
    /// queue: it is waiting under its identifier with a cached waker, or it
    /// is gone together with its waker.
    pub open spec fn settled(&self, t: Task<F>) -> bool {
        let id = t.id.0;
        ||| self.waiting().contains_key(id) && self.waiting()[id].id == t.id && self.wakers().contains_key(
            id,
        )
        ||| !self.waiting().contains_key(id) && !self.wakers().contains_key(id)
    }

    /// Polls the task at the front of the ready queue with its cached waker,
    /// caching a new one (`TaskWaker::new_waker` on this executor's wake
    /// queue) first if it has none, then files it by the outcome with
    /// `finish_poll`.
    ///
    /// Returns `None` when the ready queue is empty; otherwise `Ok(pending)`,
    /// or the duplicate found when filing a pending task.
    pub fn poll_front(&mut self) -> (r: Option<Result<bool, DuplicateTask>>)
        requires
            old(self).wf(),
        ensures
            final(self).wf(),
            old(self).ready().len() == 0 ==> {
                &&& r is None
                &&& final(self).ready() == old(self).ready()
                &&& final(self).waiting() == old(self).waiting()
                &&& final(self).wakers() == old(self).wakers()
            },
            old(self).ready().len() > 0 ==> ({
                let t = old(self).ready()[0];
                let id = t.id.0;
                &&& r is Some
                &&& final(self).ready() == old(self).ready().drop_first()
                &&& !old(self).waiting().contains_key(id) ==> (r matches Some(Ok(_)))
                &&& r == Some(Ok::<bool, DuplicateTask>(false)) ==> {
                    &&& final(self).waiting() == old(self).waiting()
                    &&& final(self).wakers() == old(self).wakers().remove(id)
                }
                &&& r == Some(Ok::<bool, DuplicateTask>(true)) ==> {
                    &&& !old(self).waiting().contains_key(id)
                    &&& final(self).waiting() == old(self).waiting().insert(id, final(self).waiting()[id])
                    &&& final(self).waiting()[id].id == t.id
                    &&& final(self).wakers().contains_key(id)
                    &&& final(self).wakers().remove(id) == old(self).wakers().remove(id)
                    &&& old(self).wakers().contains_key(id) ==> final(self).wakers()[id]
                        == old(self).wakers()[id]
                }
                &&& r matches Some(Err(d)) ==> {
                    &&& d == DuplicateTask(t.id)
                    &&& old(self).waiting().contains_key(id)
                    &&& final(self).waiting() == old(self).waiting()
                }
            }),
    {
        match self.pop_ready() {
            None => None,
            Some(mut task) => {
                let id = task.id.0;
                if !self.has_waker(id) {
                    let waker = W::new_waker(id, share(&self.wake_queue));
                    self.cache_waker(id, waker);
                }
                let ghost wakers1 = self.wakers();
                let pending = match self.waker(id) {
                    Some(waker) => task.future.poll_task(waker),
                    None => {
                        proof {
                            assert(false);
                        }
                        true
                    },
                };
                let r = self.finish_poll(task, pending);
                proof {
                    assert(wakers1.remove(id) =~= old(self).wakers().remove(id));
                    if !pending {
                        assert(self.wakers() =~= old(self).wakers().remove(id));
                    }
                }
                match r {
                    Ok(()) => Some(Ok(pending)),
                    Err(d) => Some(Err(d)),
                }
            },
        }
    }

    /// Polls the tasks of the ready queue, front first, until it is empty,
    /// each with `poll_front`.
    ///
    /// If the state is consistent this never finds a duplicate, and every
    /// task polled ends `settled`: waiting with its waker when its poll was
    /// pending, gone with its waker otherwise. If a duplicate is found,
    /// polling stops and it is returned.
    pub fn poll_ready_tasks(&mut self) -> (r: Result<(), DuplicateTask>)
        requires
            old(self).wf(),
        ensures
            final(self).wf(),
            consistent(old(self).ready_ids(), old(self).waiting_ids()) ==> r is Ok,
            r is Ok ==> final(self).ready().len() == 0,
            r matches Err(d) ==> final(self).waiting().contains_key(d.0.0),
            old(self).waiting().submap_of(final(self).waiting()),
            consistent(old(self).ready_ids(), old(self).waiting_ids()) ==> consistent(
                final(self).ready_ids(),
                final(self).waiting_ids(),
            ),
            consistent(old(self).ready_ids(), old(self).waiting_ids()) ==> forall|i: int|
                0 <= i < old(self).ready().len() ==> final(self).settled(#[trigger] old(self).ready()[i]),
            final(self).waiting_ids().subset_of(
                old(self).waiting_ids().union(old(self).ready_ids().to_set()),
            ),
            r is Ok && old(self).wakers_tracked() ==> final(self).wakers_tracked(),
            r is Ok && consistent(old(self).ready_ids(), old(self).waiting_ids())
                && old(self).wakers_tracked() && old(self).waiting_covered() ==> final(self).wakers().dom() == final(self).waiting_ids(),
    {
        let ghost c0 = consistent(old(self).ready_ids(), old(self).waiting_ids());
        let ghost t0 = old(self).wakers_tracked();
        let ghost v0 = c0 && t0 && old(self).waiting_covered();
        let ghost n0 = old(self).ready().len();
        let ghost outstanding = old(self).waiting_ids().union(old(self).ready_ids().to_set());
        while self.task_queue.len() > 0
            invariant
                self.wf(),
                c0 == consistent(old(self).ready_ids(), old(self).waiting_ids()),
                c0 ==> consistent(self.ready_ids(), self.waiting_ids()),
                t0 == old(self).wakers_tracked(),
                t0 ==> self.wakers_tracked(),
                v0 == (c0 && t0 && old(self).waiting_covered()),
                v0 ==> self.waiting_covered(),
                n0 == old(self).ready().len(),
                self.ready().len() <= n0,
                self.ready() == old(self).ready().subrange(n0 - self.ready().len(), n0 as int),
                old(self).waiting().submap_of(self.waiting()),
                c0 ==> forall|i: int|
                    0 <= i < n0 - self.ready().len() ==> self.settled(#[trigger] old(self).ready()[i]),
                outstanding == old(self).waiting_ids().union(old(self).ready_ids().to_set()),
                self.waiting_ids().union(self.ready_ids().to_set()).subset_of(outstanding),
            decreases self.ready().len(),
        {
            let ghost pre = *self;
            let ghost ready0 = self.ready_ids();
            let ghost waiting0 = self.waiting_ids();
            let ghost p = n0 - self.ready().len();
            let ghost t = self.ready()[0];
            let ghost id = t.id.0;
            proof {
                assert(id == ready0[0]);
                assert(t == old(self).ready()[p]);
                if c0 {
                    lemma_no_duplicate_park(ready0, waiting0);
                    lemma_done_keeps_consistent(ready0, waiting0);
                }
            }
            let r = self.poll_front();
            proof {
                assert(self.ready_ids() =~= ready0.drop_first());
                assert(self.ready() =~= old(self).ready().subrange(n0 - self.ready().len(), n0 as int));
                assert(ready0.to_set().contains(ready0[0]));
                assert forall|x: u64| ready0.drop_first().to_set().contains(x) implies ready0.to_set().contains(x) by {
                    let i = choose|i: int| 0 <= i < ready0.drop_first().len() && ready0.drop_first()[i] == x;
                    assert(ready0[i + 1] == x);
                }
            }
            let pending = match r {
                Some(Ok(pending)) => pending,
                Some(Err(d)) => {
                    return Err(d);
                },
                None => {
                    proof {
                        assert(false);
                    }
                    false
                },
            };
            proof {
                assert forall|x: u64| x != id implies (#[trigger] self.waiting().contains_key(x)
                    == pre.waiting().contains_key(x)) && (self.waiting().contains_key(x)
                    ==> self.waiting()[x] == pre.waiting()[x]) by {}
                assert forall|x: u64| x != id implies #[trigger] self.wakers().contains_key(x)
                    == pre.wakers().contains_key(x) by {
                    assert(self.wakers().remove(id).contains_key(x) == self.wakers().contains_key(x));
                    assert(pre.wakers().remove(id).contains_key(x) == pre.wakers().contains_key(x));
                }
                if pending {
                    assert(self.waiting().contains_key(id));
                    assert(self.wakers().contains_key(id));
                    assert(!waiting0.contains(id));
                } else {
                    assert(!self.wakers().contains_key(id));
                    assert(self.waiting() == pre.waiting());
                }
                assert forall|x: u64| #[trigger] old(self).waiting().contains_key(x) implies self.waiting().contains_key(x)
                    && self.waiting()[x] == old(self).waiting()[x] by {
                    assert(pre.waiting().contains_key(x));
                    assert(pre.waiting()[x] == old(self).waiting()[x]);
                }
                // Outstanding tasks only shrink.
                assert forall|x: u64| #[trigger] self.waiting_ids().union(self.ready_ids().to_set()).contains(x)
                    implies outstanding.contains(x) by {
                    if self.ready_ids().to_set().contains(x) {
                        assert(ready0.to_set().contains(x));
                    } else if x != id {
                        assert(pre.waiting().contains_key(x));
                    }
                    assert(pre.waiting_ids().union(pre.ready_ids().to_set()).contains(x));
                }
                if c0 {
                    if pending {
                        assert(self.waiting_ids() =~= parked_waiting(ready0, waiting0));
                    } else {
                        assert(self.waiting_ids() =~= waiting0);
                    }
                }
                if t0 {
                    assert forall|x: u64| #[trigger] self.wakers().contains_key(x) implies self.waiting_ids().contains(x)
                        || self.ready_ids().contains(x) by {
                        if x != id {
                            assert(pre.wakers().contains_key(x));
                            assert(waiting0.contains(x) || ready0.contains(x));
                            if !waiting0.contains(x) {
                                let i = choose|i: int| 0 <= i < ready0.len() && ready0[i] == x;
                                assert(i != 0);
                                assert(ready0.drop_first()[i - 1] == x);
                            }
                        }
                    }
                }
                if v0 {
                    assert forall|x: u64| #[trigger] self.waiting().contains_key(x) implies self.wakers().contains_key(x) by {
                        if x != id {
                            assert(pre.waiting().contains_key(x));
                        }
                    }
                }
                if c0 {
                    assert forall|i: int| 0 <= i < n0 - self.ready().len() implies self.settled(
                        #[trigger] old(self).ready()[i],
                    ) by {
                        if i < p {
                            let ti = old(self).ready()[i];
                            assert(pre.settled(ti));
                            assert(old(self).ready_ids()[i] == ti.id.0);
                            assert(old(self).ready_ids()[p] == id);
                            assert(ti.id.0 != id);
                        } else {
                            assert(i == p);
                        }
                    }
                }
            }
        }
        proof {
            if v0 {
                assert(self.wakers().dom() =~= self.waiting_ids());
            }
        }
        Ok(())
    }

    /// One scheduling pass, in order: moves spawned tasks to the ready queue
    /// (`run_spawned`), handles pending wakes (`wake_tasks`), then polls ready
    /// tasks until none is left (`poll_ready_tasks`).
    pub fn run_ready_tasks(&mut self) -> (r: Result<(), DuplicateTask>)
        requires
            old(self).wf(),
        ensures
            final(self).wf(),
            r is Ok ==> final(self).ready().len() == 0,
            r matches Err(d) ==> final(self).waiting().contains_key(d.0.0) || final(self).ready_ids().contains(d.0.0),
            r is Ok && consistent(old(self).ready_ids(), old(self).waiting_ids())
                && old(self).wakers_tracked() && old(self).waiting_covered() ==> final(self).wakers().dom() == final(self).waiting_ids(),
            consistent(old(self).ready_ids(), old(self).waiting_ids()) && r is Ok ==> forall|i: int|
                0 <= i < old(self).ready().len() ==> final(self).settled(#[trigger] old(self).ready()[i]),
    {
        let spawned = self.run_spawned();
        if spawned.is_err() {
            return spawned;
        }
        let ghost drained = self.ready();
        self.wake_tasks();
        let ghost woken = self.ready();
        let r = self.poll_ready_tasks();
        proof {
            assert forall|i: int| 0 <= i < old(self).ready().len() implies old(self).ready()[i] == woken[i] by {
                assert(old(self).ready()[i] == drained.subrange(0, old(self).ready().len() as int)[i]);
                assert(drained[i] == woken.subrange(0, drained.len() as int)[i]);
            }
        }
        r
    }
}

/// A wake of any identifier keeps the set of outstanding tasks, waiting or
/// ready, unchanged.
pub proof fn lemma_wake_keeps_outstanding(ready: Seq<u64>, waiting: Set<u64>, id: u64)
    ensures
        woken_waiting(waiting, id).union(woken_ready(ready, waiting, id).to_set()) == waiting.union(
            ready.to_set(),
        ),
{
    let r2 = woken_ready(ready, waiting, id);
    assert forall|x: u64| ready.contains(x) implies r2.contains(x) by {
        let i = choose|i: int| 0 <= i < ready.len() && ready[i] == x;
        assert(r2[i] == x);
    }
    assert forall|x: u64| r2.contains(x) implies ready.contains(x) || x == id by {
        let i = choose|i: int| 0 <= i < r2.len() && r2[i] == x;
        if i < ready.len() {
            assert(ready[i] == x);
        }
    }
    if waiting.contains(id) {
        assert(r2[r2.len() - 1] == id);
    }
    assert(woken_waiting(waiting, id).union(r2.to_set()) =~= waiting.union(ready.to_set()));
}

/// A wake of any identifier keeps the state consistent.
pub proof fn lemma_wake_keeps_consistent(ready: Seq<u64>, waiting: Set<u64>, id: u64)
    ensures
        consistent(ready, waiting) ==> consistent(
            woken_ready(ready, waiting, id),
            woken_waiting(waiting, id),
        ),
{
    if consistent(ready, waiting) && waiting.contains(id) {
        let r2 = ready.push(id);
        assert(!ready.contains(id));
        assert forall|i: int, j: int| 0 <= i < r2.len() && 0 <= j < r2.len() && i != j implies r2[i]
            != r2[j] by {
            if i < ready.len() && j < ready.len() {
            } else if i < ready.len() {
                assert(ready[i] != id);
            } else if j < ready.len() {
                assert(ready[j] != id);
            }
        }
    }
}

/// Tasks are polled in the order in which they were spawned: after `spawn`
/// queues `t1`, `t2`, `t3` (each at the back of the ready queue) on an
/// executor whose ready queue is empty, three `pop_ready` calls (each taking
/// the front) hand out `t1`, then `t2`, then `t3`, and leave it empty.
pub proof fn lemma_spawn_order<F, W>(e: Executor<F, W>, t1: Task<F>, t2: Task<F>, t3: Task<F>)
    requires
        e.ready().len() == 0,
    ensures
        ({
            let q = e.ready().push(t1).push(t2).push(t3);
            &&& q[0] == t1
            &&& q.drop_first()[0] == t2
            &&& q.drop_first().drop_first()[0] == t3
            &&& q.drop_first().drop_first().drop_first().len() == 0
        }),
{
}

/// Under a consistent state, the task at the front of the ready queue is not
/// waiting, so parking it after a pending poll never finds a duplicate; and
/// parking it keeps the state consistent.
pub proof fn lemma_no_duplicate_park(ready: Seq<u64>, waiting: Set<u64>)
    requires
        consistent(ready, waiting),
        ready.len() > 0,
    ensures
        !waiting.contains(ready[0]),
        consistent(ready.drop_first(), parked_waiting(ready, waiting)),
{
    assert(!waiting.contains(ready[0]));
    let r2 = ready.drop_first();
    let w2 = parked_waiting(ready, waiting);
    assert forall|i: int| 0 <= i < r2.len() implies !w2.contains(#[trigger] r2[i]) by {
        assert(r2[i] == ready[i + 1]);
        assert(ready[i + 1] != ready[0]);
    }
    assert forall|i: int, j: int| 0 <= i < r2.len() && 0 <= j < r2.len() && i != j implies r2[i]
        != r2[j] by {
        assert(r2[i] == ready[i + 1]);
        assert(r2[j] == ready[j + 1]);
    }
}

/// A finished task leaves the ready queue and the state stays consistent.
pub proof fn lemma_done_keeps_consistent(ready: Seq<u64>, waiting: Set<u64>)
    requires
        consistent(ready, waiting),
        ready.len() > 0,
    ensures
        consistent(ready.drop_first(), waiting),
{
    let r2 = ready.drop_first();
    assert forall|i: int, j: int| 0 <= i < r2.len() && 0 <= j < r2.len() && i != j implies r2[i]
        != r2[j] by {
        assert(r2[i] == ready[i + 1]);
        assert(r2[j] == ready[j + 1]);
    }
    assert forall|i: int| 0 <= i < r2.len() implies !waiting.contains(#[trigger] r2[i]) by {
        assert(r2[i] == ready[i + 1]);
    }
}

/// Spawning a task whose identifier is not outstanding keeps the state
/// consistent.
pub proof fn lemma_spawn_keeps_consistent(ready: Seq<u64>, waiting: Set<u64>, id: u64)
    requires
        consistent(ready, waiting),
        !ready.contains(id),
        !waiting.contains(id),
    ensures
        consistent(ready.push(id), waiting),
{
    let r2 = ready.push(id);
    assert forall|i: int, j: int| 0 <= i < r2.len() && 0 <= j < r2.len() && i != j implies r2[i]
        != r2[j] by {
        if i < ready.len() && j < ready.len() {
        } else if i < ready.len() {
            assert(ready[i] != id);
        } else if j < ready.len() {
            assert(ready[j] != id);
        }
    }
}

/// A task that was pending and parked, and is then woken, is back in the
/// ready queue (at its back) and no longer waiting: it is never in both.
pub proof fn lemma_wake_after_park(ready: Seq<u64>, waiting: Set<u64>)
    requires
        consistent(ready, waiting),
        ready.len() > 0,
    ensures
        ({
            let id = ready[0];
            let r1 = ready.drop_first();
            let w1 = parked_waiting(ready, waiting);
            let r2 = woken_ready(r1, w1, id);
            let w2 = woken_waiting(w1, id);
            &&& w1.contains(id) && !r1.contains(id)
            &&& r2 == r1.push(id)
            &&& r2.last() == id
            &&& !w2.contains(id)
            &&& w2 == waiting
            &&& consistent(r2, w2)
        }),
{
    let id = ready[0];
    lemma_no_duplicate_park(ready, waiting);
    let r1 = ready.drop_first();
    let w1 = parked_waiting(ready, waiting);
    assert(!r1.contains(id)) by {
        if r1.contains(id) {
            let i = choose|i: int| 0 <= i < r1.len() && r1[i] == id;
            assert(ready[i + 1] == ready[0]);
        }
    }
    assert(woken_waiting(w1, id) =~= waiting);
    lemma_wake_keeps_consistent(r1, w1, id);
}

} // verus!
