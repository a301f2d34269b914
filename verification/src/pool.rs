//! The pool itself: a fixed set of workers around one task queue.
//!
//! `ThreadPool` is the pool's bookkeeping, free of threads. The program that
//! owns the threads keeps one `ThreadPool` behind a lock and lets each thread
//! report to it: a thread calls [`ThreadPool::claim`] to learn what to do
//! next, runs the task it was given outside the lock, and calls
//! [`ThreadPool::finish`] when the task has returned or panicked. The queue is
//! unbounded, so [`ThreadPool::execute`] never waits.
//!
//! A task occupies its worker until it ends. The pool neither interrupts a
//! task nor limits its running time: a task that never ends keeps its worker
//! for ever, and a pool whose workers are all occupied lets the queue grow.

use crate::model::{count_running, Claim, Event, PoolModel, TaskOutcome};
use crate::queue::{Delivery, Rejected, TaskQueue};
use crate::safety::{lemma_count_running_bounded, lemma_count_running_take};
use crate::worker::{Worker, WorkerEvent, WorkerState};
use vstd::prelude::*;

verus! {

/// A pool of a fixed number of workers that take tasks of type `T` from one
/// shared first-in, first-out queue.
pub struct ThreadPool<T> {
    workers: Vec<Worker>,
    queue: TaskQueue<T>,
    model: Ghost<PoolModel<T>>,
}

impl<T> View for ThreadPool<T> {
    type V = PoolModel<T>;

    closed spec fn view(&self) -> PoolModel<T> {
        self.model@
    }
}

impl<T> ThreadPool<T> {
    /// The pool is consistent: its workers and its queue are what its view
    /// says, and the view satisfies the invariant of the model.
    pub closed spec fn wf(&self) -> bool {
        &&& self.model@.inv()
        &&& self.workers@.len() == self.model@.workers.len()
        &&& forall|i: int|
            0 <= i < self.workers@.len() ==> (#[trigger] self.workers@[i]).id() == i
                && self.workers@[i].state() == self.model@.workers[i].state()
        &&& self.queue@.pending == self.model@.pending()
        &&& self.queue@.closed == self.model@.closed
    }

    /// A consistent pool satisfies the invariant of the model.
    pub proof fn lemma_wf_inv(&self)
        requires
            self.wf(),
        ensures
            self@.inv(),
    {
    }

    /// Creates a pool of `size` idle workers, numbered from 0, with an empty,
    /// open queue. A pool needs at least one worker.
    pub fn new(size: usize) -> (pool: Self)
        requires
            size > 0,
        ensures
            pool.wf(),
            pool@ == PoolModel::<T>::init(size as nat),
    {
        let mut workers: Vec<Worker> = Vec::with_capacity(size);
        let mut id: usize = 0;
        while id < size
            invariant
                id <= size,
                workers@.len() == id,
                forall|i: int|
                    0 <= i < id ==> (#[trigger] workers@[i]).id() == i && workers@[i].state()
                        == WorkerState::Idle,
            decreases size - id,
        {
            workers.push(Worker::new(id));
            id += 1;
        }
        let pool = ThreadPool {
            workers,
            queue: TaskQueue::new(),
            model: Ghost(PoolModel::init(size as nat)),
        };
        proof {
            PoolModel::<T>::lemma_init_inv(size as nat);
            assert(pool.queue@.pending =~= pool.model@.pending());
        }
        pool
    }

    /// Puts `task` at the back of the queue. A pool that is shutting down
    /// takes no task: it hands `task` back inside `Rejected` and does not
    /// change.
    pub fn execute(&mut self, task: T) -> (r: Result<(), Rejected<T>>)
        requires
            old(self).wf(),
        ensures
            final(self).wf(),
            final(self)@ == old(self)@.submit(task),
            old(self)@.closed ==> r == Err::<(), Rejected<T>>(Rejected { task }),
            !old(self)@.closed ==> r.is_ok(),
    {
        let ghost before = self.model@;
        let r = self.queue.send(task);
        self.model = Ghost(before.submit(task));
        proof {
            before.lemma_step_inv(Event::Submit(task));
            assert(self.queue@.pending =~= self.model@.pending());
        }
        r
    }

    /// Worker `worker` asks what to do next.
    ///
    /// Returns `None`, and changes nothing, unless `worker` is an idle worker
    /// of this pool. An idle worker gets the oldest waiting task and becomes
    /// running. With nothing waiting it is told to `Wait` while the pool is
    /// open, and to `Exit` once the pool is shutting down; on `Exit` the worker
    /// is terminated.
    pub fn claim(&mut self, worker: usize) -> (r: Option<Claim<T>>)
        requires
            old(self).wf(),
        ensures
            final(self).wf(),
            final(self)@ == old(self)@.claim(worker as nat),
            r == old(self)@.claim_result(worker as nat),
    {
        let ghost before = self.model@;
        if worker >= self.workers.len() {
            return None;
        }
        match self.workers[worker].state() {
            WorkerState::Idle => {},
            _ => {
                return None;
            },
        }
        proof {
            before.lemma_step_inv(Event::Claim(worker as nat));
        }
        match self.queue.recv() {
            Delivery::Task(task) => {
                self.apply(worker, WorkerEvent::TaskReceived);
                self.model = Ghost(before.claim(worker as nat));
                proof {
                    assert(self.queue@.pending =~= self.model@.pending());
                }
                Some(Claim::Run(task))
            },
            Delivery::Closed => {
                self.apply(worker, WorkerEvent::QueueClosed);
                self.model = Ghost(before.claim(worker as nat));
                Some(Claim::Exit)
            },
            Delivery::Empty => Some(Claim::Wait),
        }
    }

    /// Worker `worker` reports that the task in its hands ended with
    /// `outcome`.
    ///
    /// Returns `true` if `worker` was running a task; the worker is then idle
    /// again, whether the task returned or panicked. Returns `false`, and
    /// changes nothing, for any other `worker`.
    pub fn finish(&mut self, worker: usize, outcome: TaskOutcome) -> (was_running: bool)
        requires
            old(self).wf(),
        ensures
            final(self).wf(),
            final(self)@ == old(self)@.finish(worker as nat, outcome),
            was_running == old(self)@.is_running(worker as nat),
    {
        let ghost before = self.model@;
        if worker >= self.workers.len() {
            return false;
        }
        match self.workers[worker].state() {
            WorkerState::Running => {},
            _ => {
                return false;
            },
        }
        let event = match outcome {
            TaskOutcome::Completed => WorkerEvent::TaskCompleted,
            TaskOutcome::Panicked => WorkerEvent::TaskPanicked,
        };
        self.apply(worker, event);
        self.model = Ghost(before.finish(worker as nat, outcome));
        proof {
            before.lemma_step_inv(Event::Finish(worker as nat, outcome));
        }
        true
    }

    /// Begins shutdown: from now on `execute` refuses tasks, and a worker that
    /// finds the queue empty is told to exit. Tasks already waiting are still
    /// handed out. Calling it again changes nothing.
    pub fn shutdown(&mut self)
        requires
            old(self).wf(),
        ensures
            final(self).wf(),
            final(self)@ == old(self)@.close(),
    {
        let ghost before = self.model@;
        self.queue.close();
        self.model = Ghost(before.close());
        proof {
            before.lemma_step_inv(Event::Close);
        }
    }

    /// Moves one worker along its life cycle, leaving everything else alone.
    fn apply(&mut self, worker: usize, event: WorkerEvent)
        requires
            worker < old(self).workers@.len(),
            old(self).workers@[worker as int].state().next(event).is_some(),
        ensures
            final(self).queue == old(self).queue,
            final(self).model == old(self).model,
            final(self).workers@.len() == old(self).workers@.len(),
            forall|i: int|
                0 <= i < final(self).workers@.len() ==> (#[trigger] final(self).workers@[i]).id()
                    == old(self).workers@[i].id(),
            forall|i: int|
                0 <= i < final(self).workers@.len() && i != worker
                    ==> (#[trigger] final(self).workers@[i]).state() == old(
                    self,
                ).workers@[i].state(),
            Some(final(self).workers@[worker as int].state()) == old(
                self,
            ).workers@[worker as int].state().next(event),
    {
        let mut w = self.workers[worker];
        let _ = w.handle(event);
        self.workers.set(worker, w);
    }

    /// The number of workers, fixed when the pool was created.
    pub fn size(&self) -> (n: usize)
        requires
            self.wf(),
        ensures
            n == self@.size(),
            n > 0,
    {
        self.workers.len()
    }

    /// The number of tasks waiting in the queue.
    pub fn pending(&self) -> (n: usize)
        requires
            self.wf(),
        ensures
            n == self@.pending().len(),
            n == self@.submitted.len() - self@.started,
    {
        self.queue.len()
    }

    /// The number of tasks being executed right now. It never exceeds the
    /// number of workers.
    pub fn running(&self) -> (n: usize)
        requires
            self.wf(),
        ensures
            n == self@.running(),
            n <= self@.size(),
    {
        let mut n: usize = 0;
        let mut i: usize = 0;
        while i < self.workers.len()
            invariant
                self.wf(),
                i <= self.workers@.len(),
                n == count_running(self.model@.workers.take(i as int)),
                n <= i,
            decreases self.workers@.len() - i,
        {
            proof {
                lemma_count_running_take(self.model@.workers, i as int);
            }
            match self.workers[i].state() {
                WorkerState::Running => {
                    n += 1;
                },
                _ => {},
            }
            i += 1;
        }
        proof {
            assert(self.model@.workers.take(i as int) =~= self.model@.workers);
            lemma_count_running_bounded(self.model@.workers);
        }
        n
    }

    /// The state of worker `worker`, or `None` if the pool has no such worker.
    pub fn worker_state(&self, worker: usize) -> (s: Option<WorkerState>)
        requires
            self.wf(),
        ensures
            s == if worker < self@.size() {
                Some(self@.workers[worker as int].state())
            } else {
                None
            },
    {
        if worker < self.workers.len() {
            Some(self.workers[worker].state())
        } else {
            None
        }
    }

    /// Whether shutdown has begun.
    pub fn is_shut_down(&self) -> (b: bool)
        requires
            self.wf(),
        ensures
            b == self@.closed,
    {
        self.queue.is_closed()
    }

    /// Whether every worker has exited: the moment at which a shutdown that
    /// waits for the workers may return.
    pub fn is_terminated(&self) -> (b: bool)
        requires
            self.wf(),
        ensures
            b == self@.terminated(),
    {
        let mut i: usize = 0;
        while i < self.workers.len()
            invariant
                self.wf(),
                i <= self.workers@.len(),
                forall|w: int| 0 <= w < i ==> (#[trigger] self.model@.workers[w]) is Terminated,
            decreases self.workers@.len() - i,
        {
            match self.workers[i].state() {
                WorkerState::Terminated => {},
                _ => {
                    assert(!(self.model@.workers[i as int] is Terminated));
                    return false;
                },
            }
            i += 1;
        }
        true
    }
}

} // verus!
