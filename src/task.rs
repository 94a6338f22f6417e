//! Tasks: uniquely identified suspendable computations.
use vstd::prelude::*;

verus! {

/// Identifier of a task, unique among the tasks of a process.
#[derive(Debug, Clone, Copy, PartialEq, Eq, Structural, PartialOrd, Ord, Hash)]
pub struct TaskId(pub u64);

/// A suspendable computation together with its identifier.
///
/// The computation is opaque here: the executor only moves it between its
/// queues, and whoever runs the executor polls it.
pub struct Task<F> {
    pub id: TaskId,
    pub future: F,
}

impl<F> Task<F> {
    /// Wraps `future` as the task with identifier `id`.
    pub fn new(id: TaskId, future: F) -> (r: Self)
        ensures
            r.id == id,
            r.future == future,
    {
        Task { id, future }
    }
}

/// Hands out task identifiers in increasing order, never the same one twice.
pub struct TaskIdCounter {
    next: u64,
}

impl TaskIdCounter {
    /// The identifier the next call of `next_id` hands out.
    pub closed spec fn peek(&self) -> u64 {
        self.next
    }

    /// A counter whose first identifier is 0.
    pub fn new() -> (r: Self)
        ensures
            r.peek() == 0,
    {
        TaskIdCounter { next: 0 }
    }

    /// The next identifier, or `None` once all of them have been handed out.
    pub fn next_id(&mut self) -> (r: Option<TaskId>)
        ensures
            old(self).peek() < u64::MAX ==> {
                &&& r == Some(TaskId(old(self).peek()))
                &&& final(self).peek() == old(self).peek() + 1
            },
            old(self).peek() == u64::MAX ==> r is None && final(self).peek() == old(self).peek(),
    {
        if self.next == u64::MAX {
            None
        } else {
            let id = self.next;
            self.next = self.next + 1;
            Some(TaskId(id))
        }
    }
}

} // verus!
