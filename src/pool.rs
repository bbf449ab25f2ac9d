use vstd::prelude::*;

use std::collections::VecDeque;

verus! {

/// The work queue of a fixed-size pool of workers.
///
/// Tasks are queued in submission order and handed out one at a time, first in
/// first out, to whichever worker asks next. Closing the pool is the only signal
/// that stops the workers: once it is closed and the queue is empty, every
/// worker that asks is told to exit. The pool does not look inside its tasks.
pub struct ThreadPool<T> {
    size: usize,
    queue: VecDeque<T>,
    closed: bool,
    submitted: Ghost<Seq<T>>,
    dispatched: Ghost<Seq<T>>,
}

/// What a worker does next.
pub enum WorkerStep<T> {
    /// Execute the given job to completion, then ask again.
    Execute(T),
    /// Nothing is queued yet: wait for a submission or for the pool to close.
    Wait,
    /// The pool is closed and drained: stop.
    Exit,
}

impl<T> ThreadPool<T> {
    /// The number of workers.
    pub closed spec fn spec_size(&self) -> nat {
        self.size as nat
    }

    /// Whether the producer side has been closed.
    pub closed spec fn spec_closed(&self) -> bool {
        self.closed
    }

    /// Every task submitted so far, in submission order.
    pub closed spec fn submitted(&self) -> Seq<T> {
        self.submitted@
    }

    /// Every task handed to a worker so far, in the order handed out.
    pub closed spec fn dispatched(&self) -> Seq<T> {
        self.dispatched@
    }

    /// The tasks waiting in the queue, the next to be handed out first.
    pub closed spec fn pending(&self) -> Seq<T> {
        self.queue@
    }

    /// The tasks handed out and those pending make up, in order, exactly the
    /// tasks submitted.
    pub closed spec fn wf(&self) -> bool {
        &&& self.size > 0
        &&& self.submitted@ == self.dispatched@ + self.queue@
    }

    /// A pool of `size` workers with nothing submitted.
    pub fn new(size: usize) -> (r: Self)
        requires
            size > 0,
        ensures
            r.wf(),
            r.spec_size() == size,
            !r.spec_closed(),
            r.submitted() == Seq::<T>::empty(),
            r.dispatched() == Seq::<T>::empty(),
            r.pending() == Seq::<T>::empty(),
    {
        let r = ThreadPool {
            size,
            queue: VecDeque::new(),
            closed: false,
            submitted: Ghost(Seq::empty()),
            dispatched: Ghost(Seq::empty()),
        };
        assert(r.dispatched@ + r.queue@ =~= Seq::<T>::empty());
        r
    }

    /// The number of workers.
    pub fn size(&self) -> (r: usize)
        ensures
            r == self.spec_size(),
    {
        self.size
    }

    /// Whether the producer side has been closed.
    pub fn is_closed(&self) -> (r: bool)
        ensures
            r == self.spec_closed(),
    {
        self.closed
    }

    /// The number of tasks waiting in the queue.
    pub fn pending_len(&self) -> (r: usize)
        ensures
            r == self.pending().len(),
    {
        self.queue.len()
    }

    /// Queues `task` behind every task submitted before it. Never waits: the
    /// queue has no bound.
    pub fn submit(&mut self, task: T)
        requires
            old(self).wf(),
            !old(self).spec_closed(),
        ensures
            final(self).wf(),
            final(self).spec_size() == old(self).spec_size(),
            !final(self).spec_closed(),
            final(self).submitted() == old(self).submitted().push(task),
            final(self).dispatched() == old(self).dispatched(),
            final(self).pending() == old(self).pending().push(task),
    {
        self.submitted = Ghost(self.submitted@.push(task));
        self.queue.push_back(task);
        assert(self.submitted@ =~= self.dispatched@ + self.queue@);
    }

    /// Closes the producer side: nothing more can be submitted.
    pub fn close(&mut self)
        requires
            old(self).wf(),
        ensures
            final(self).wf(),
            final(self).spec_closed(),
            final(self).spec_size() == old(self).spec_size(),
            final(self).submitted() == old(self).submitted(),
            final(self).dispatched() == old(self).dispatched(),
            final(self).pending() == old(self).pending(),
    {
        self.closed = true;
    }

    /// Decides what the worker that asks does next: run the oldest queued task,
    /// which leaves the queue; wait, when nothing is queued and the pool is open;
    /// or exit, when nothing is queued and the pool is closed.
    pub fn next_step(&mut self) -> (r: WorkerStep<T>)
        requires
            old(self).wf(),
        ensures
            final(self).wf(),
            final(self).spec_size() == old(self).spec_size(),
            final(self).spec_closed() == old(self).spec_closed(),
            final(self).submitted() == old(self).submitted(),
            match r {
                WorkerStep::Execute(task) => {
                    &&& old(self).pending().len() > 0
                    &&& task == old(self).pending()[0]
                    &&& final(self).pending() == old(self).pending().drop_first()
                    &&& final(self).dispatched() == old(self).dispatched().push(task)
                },
                WorkerStep::Wait => {
                    &&& old(self).pending().len() == 0
                    &&& !old(self).spec_closed()
                    &&& final(self).pending() == old(self).pending()
                    &&& final(self).dispatched() == old(self).dispatched()
                },
                WorkerStep::Exit => {
                    &&& old(self).pending().len() == 0
                    &&& old(self).spec_closed()
                    &&& final(self).pending() == old(self).pending()
                    &&& final(self).dispatched() == old(self).dispatched()
                },
            },
    {
        match self.queue.pop_front() {
            Some(task) => {
                self.dispatched = Ghost(self.dispatched@.push(task));
                assert(self.submitted@ =~= self.dispatched@ + self.queue@);
                WorkerStep::Execute(task)
            },
            None => {
                if self.closed {
                    WorkerStep::Exit
                } else {
                    WorkerStep::Wait
                }
            },
        }
    }
}

/// Tasks are handed out in submission order, each at most once: what has been
/// handed out is always a prefix of what was submitted. Once the pool is closed
/// and its queue has drained, every submitted task has been handed out exactly
/// once, and no further task will be.
pub proof fn lemma_each_task_dispatched_once<T>(pool: ThreadPool<T>)
    requires
        pool.wf(),
    ensures
        pool.dispatched() == pool.submitted().take(pool.dispatched().len() as int),
        pool.spec_closed() && pool.pending().len() == 0 ==> pool.dispatched() == pool.submitted(),
{
    assert(pool.submitted().take(pool.dispatched().len() as int) =~= pool.dispatched());
    if pool.spec_closed() && pool.pending().len() == 0 {
        assert(pool.dispatched() =~= pool.submitted());
    }
}

} // verus!
