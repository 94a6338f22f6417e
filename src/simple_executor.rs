//! FIFO executor without wakers: pending tasks go straight back to the end of
//! the queue.
use crate::task::Task;
use std::collections::VecDeque;
use vstd::prelude::*;

verus! {

/// A FIFO queue of tasks that are polled in turn until each finishes.
pub struct SimpleExecutor<F> {
    task_queue: VecDeque<Task<F>>,
}

impl<F> SimpleExecutor<F> {
    /// The queued tasks, front first.
    pub closed spec fn queue(&self) -> Seq<Task<F>> {
        self.task_queue@
    }

    /// An executor with no tasks.
    pub fn new() -> (r: Self)
        ensures
            r.queue() == Seq::<Task<F>>::empty(),
    {
        SimpleExecutor { task_queue: VecDeque::new() }
    }

    /// Queues `task` at the back.
    pub fn spawn(self, task: Task<F>) -> (r: Self)
        ensures
            r.queue() == self.queue().push(task),
    {
        let mut s = self;
        s.task_queue.push_back(task);
        s
    }

    /// Takes the task at the front, to be polled.
    pub fn pop_ready(&mut self) -> (r: Option<Task<F>>)
        ensures
            old(self).queue().len() == 0 ==> r is None && final(self).queue() == old(self).queue(),
            old(self).queue().len() > 0 ==> r == Some(old(self).queue()[0]) && final(self).queue()
                == old(self).queue().drop_first(),
    {
        self.task_queue.pop_front()
    }

    /// Takes back a polled task: a pending one goes to the back of the queue,
    /// a finished one is dropped.
    pub fn finish_poll(&mut self, task: Task<F>, pending: bool)
        ensures
            pending ==> final(self).queue() == old(self).queue().push(task),
            !pending ==> final(self).queue() == old(self).queue(),
    {
        if pending {
            self.task_queue.push_back(task);
        }
    }
}

} // verus!
