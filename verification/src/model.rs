//! The pool as a transition system.
//!
//! A [`PoolModel`] records who is doing what: the state of every worker, every
//! task ever accepted (in the order of acceptance), how many of them have been
//! handed to a worker, and every execution that has ended. Four kinds of
//! [`Event`] move it. Tasks are numbered by acceptance: the task accepted
//! first has ticket 0, the next has ticket 1, and so on.

use crate::worker::WorkerState;
use vstd::prelude::*;

verus! {

/// How an execution ended.
#[derive(Clone, Copy, Debug, PartialEq, Eq, Structural)]
pub enum TaskOutcome {
    /// The task returned.
    Completed,
    /// The task panicked and the panic was caught.
    Panicked,
}

/// A worker as the model sees it: its state, and while it runs, the ticket of
/// the task in its hands.
pub enum Slot {
    Idle,
    Running(nat),
    Terminated,
}

impl Slot {
    /// The life-cycle state of the worker in this slot.
    pub open spec fn state(self) -> WorkerState {
        match self {
            Slot::Idle => WorkerState::Idle,
            Slot::Running(_) => WorkerState::Running,
            Slot::Terminated => WorkerState::Terminated,
        }
    }
}

/// One ended execution: which task, on which worker, with what outcome.
pub struct Execution {
    pub ticket: nat,
    pub worker: nat,
    pub outcome: TaskOutcome,
}

/// What a worker is told when it asks for work.
#[derive(Debug, PartialEq, Eq)]
pub enum Claim<T> {
    /// The oldest waiting task, handed to the worker and to nobody else.
    Run(T),
    /// Nothing to do right now; ask again later.
    Wait,
    /// Nothing to do, ever again; stop.
    Exit,
}

/// The moves of the pool.
pub enum Event<T> {
    /// A caller offers a task.
    Submit(T),
    /// The worker with this index asks for work.
    Claim(nat),
    /// The worker with this index reports the end of the task in its hands.
    Finish(nat, TaskOutcome),
    /// The pool begins to shut down.
    Close,
}

/// The state of a pool.
#[verifier::ext_equal]
pub struct PoolModel<T> {
    /// One slot per worker; the index is the worker's id.
    pub workers: Seq<Slot>,
    /// Every task accepted so far; the index is the task's ticket.
    pub submitted: Seq<T>,
    /// How many tasks have been handed to workers. Tasks leave in ticket
    /// order, so these are exactly the tickets below `started`.
    pub started: nat,
    /// Every execution that has ended, in the order of ending.
    pub finished: Seq<Execution>,
    /// Whether shutdown has begun.
    pub closed: bool,
}

/// How many of the slots are running.
pub open spec fn count_running(slots: Seq<Slot>) -> nat
    decreases slots.len(),
{
    if slots.len() == 0 {
        0
    } else {
        count_running(slots.drop_last()) + if slots.last() is Running {
            1nat
        } else {
            0nat
        }
    }
}

/// How many of the slots have not terminated.
pub open spec fn count_alive(slots: Seq<Slot>) -> nat
    decreases slots.len(),
{
    if slots.len() == 0 {
        0
    } else {
        count_alive(slots.drop_last()) + if slots.last() is Terminated {
            0nat
        } else {
            1nat
        }
    }
}

impl<T> PoolModel<T> {
    /// A new pool of `size` idle workers with nothing submitted.
    pub open spec fn init(size: nat) -> Self {
        PoolModel {
            workers: Seq::new(size, |i: int| Slot::Idle),
            submitted: Seq::empty(),
            started: 0,
            finished: Seq::empty(),
            closed: false,
        }
    }

    /// The number of workers.
    pub open spec fn size(self) -> nat {
        self.workers.len()
    }

    /// The tasks waiting in the queue, oldest first.
    pub open spec fn pending(self) -> Seq<T> {
        self.submitted.skip(self.started as int)
    }

    /// The number of tasks being executed right now.
    pub open spec fn running(self) -> nat {
        count_running(self.workers)
    }

    /// How far the pool is from rest: two for every waiting task (it has yet
    /// to be claimed and to be finished), one for every running task, and one
    /// for every worker that has not terminated.
    pub open spec fn work_left(self) -> nat {
        2 * self.pending().len() + self.running() + count_alive(self.workers)
    }

    /// Whether `w` is a worker of this pool and idle.
    pub open spec fn is_idle(self, w: nat) -> bool {
        w < self.workers.len() && self.workers[w as int] is Idle
    }

    /// Whether `w` is a worker of this pool and running a task.
    pub open spec fn is_running(self, w: nat) -> bool {
        w < self.workers.len() && self.workers[w as int] is Running
    }

    /// Whether every worker has stopped: the point at which shutdown returns.
    pub open spec fn terminated(self) -> bool {
        forall|w: int| 0 <= w < self.workers.len() ==> (#[trigger] self.workers[w]) is Terminated
    }

    /// Whether some worker is executing the task with ticket `t`.
    pub open spec fn executing(self, t: nat) -> bool {
        exists|w: int| 0 <= w < self.workers.len() && #[trigger] self.workers[w] == Slot::Running(t)
    }

    /// Whether `finished[i]` is an execution of the task with ticket `t`.
    pub open spec fn executed_at(self, t: nat, i: int) -> bool {
        0 <= i < self.finished.len() && self.finished[i].ticket == t
    }

    /// Whether an execution of the task with ticket `t` has ended.
    pub open spec fn executed(self, t: nat) -> bool {
        exists|i: int| #[trigger] self.executed_at(t, i)
    }

    /// Whether exactly one execution of the task with ticket `t` has ended.
    pub open spec fn executed_once(self, t: nat) -> bool {
        exists|i: int|
            #[trigger] self.executed_at(t, i) && forall|j: int| #[trigger]
                self.executed_at(t, j) ==> j == i
    }

    /// Whether the task with ticket `t` is in a worker's hands or done.
    pub open spec fn accounted(self, t: nat) -> bool {
        self.executing(t) || self.executed(t)
    }

    /// A caller offers `task`. An open pool appends it to the queue; a pool
    /// that is shutting down takes nothing.
    pub open spec fn submit(self, task: T) -> Self {
        if self.closed {
            self
        } else {
            PoolModel { submitted: self.submitted.push(task), ..self }
        }
    }

    /// What worker `w` is told when it asks for work: `None` unless `w` is an
    /// idle worker of this pool; else the oldest waiting task, or `Exit` when
    /// nothing waits and the pool is shutting down, or `Wait`.
    pub open spec fn claim_result(self, w: nat) -> Option<Claim<T>> {
        if !self.is_idle(w) {
            None
        } else if self.started < self.submitted.len() {
            Some(Claim::Run(self.submitted[self.started as int]))
        } else if self.closed {
            Some(Claim::Exit)
        } else {
            Some(Claim::Wait)
        }
    }

    /// Worker `w` asks for work. An idle worker takes the oldest waiting task
    /// and runs; with nothing waiting it stops if the pool is shutting down
    /// and otherwise stays idle. Any other `w` changes nothing.
    pub open spec fn claim(self, w: nat) -> Self {
        if !self.is_idle(w) {
            self
        } else if self.started < self.submitted.len() {
            PoolModel {
                workers: self.workers.update(w as int, Slot::Running(self.started)),
                started: self.started + 1,
                ..self
            }
        } else if self.closed {
            PoolModel { workers: self.workers.update(w as int, Slot::Terminated), ..self }
        } else {
            self
        }
    }

    /// Worker `w` reports that its task ended with `outcome`. Whatever the
    /// outcome, a running worker becomes idle and the execution is recorded.
    /// Any other `w` changes nothing.
    pub open spec fn finish(self, w: nat, outcome: TaskOutcome) -> Self {
        if !self.is_running(w) {
            self
        } else {
            PoolModel {
                workers: self.workers.update(w as int, Slot::Idle),
                finished: self.finished.push(
                    Execution { ticket: self.workers[w as int]->Running_0, worker: w, outcome },
                ),
                ..self
            }
        }
    }

    /// Shutdown begins. What waits in the queue stays there.
    pub open spec fn close(self) -> Self {
        PoolModel { closed: true, ..self }
    }

    /// The state after one event.
    pub open spec fn step(self, event: Event<T>) -> Self {
        match event {
            Event::Submit(task) => self.submit(task),
            Event::Claim(w) => self.claim(w),
            Event::Finish(w, outcome) => self.finish(w, outcome),
            Event::Close => self.close(),
        }
    }

    /// The state after a sequence of events, applied first to last.
    pub open spec fn run(self, events: Seq<Event<T>>) -> Self
        decreases events.len(),
    {
        if events.len() == 0 {
            self
        } else {
            self.run(events.drop_last()).step(events.last())
        }
    }

    /// The tasks handed to workers while `events` are applied, in the order of
    /// handing out.
    pub open spec fn deliveries(self, events: Seq<Event<T>>) -> Seq<T>
        decreases events.len(),
    {
        if events.len() == 0 {
            Seq::empty()
        } else {
            let before = self.run(events.drop_last());
            let earlier = self.deliveries(events.drop_last());
            match events.last() {
                Event::Claim(w) => match before.claim_result(w) {
                    Some(Claim::Run(task)) => earlier.push(task),
                    _ => earlier,
                },
                _ => earlier,
            }
        }
    }

    /// What holds of every pool, whatever happened to it.
    pub open spec fn inv(self) -> bool {
        // There is at least one worker.
        &&& self.workers.len() > 0
        // Only accepted tasks are handed out.
        &&& self.started <= self.submitted.len()
        // Every accepted task is waiting, running or done, and is counted once.
        &&& self.started == self.running() + self.finished.len()
        // A worker runs a task that was handed out.
        &&& forall|w: int|
            0 <= w < self.workers.len() ==> (#[trigger] self.workers[w] matches Slot::Running(t)
                ==> t < self.started)
        // No two workers run the same task.
        &&& forall|v: int, w: int|
            0 <= v < self.workers.len() && 0 <= w < self.workers.len() && v != w
                && (#[trigger] self.workers[v]) is Running ==> self.workers[v]
                != #[trigger] self.workers[w]
        // Every ended execution was of a task handed out, on a worker of the pool.
        &&& forall|i: int|
            0 <= i < self.finished.len() ==> (#[trigger] self.finished[i]).ticket < self.started
                && self.finished[i].worker < self.workers.len()
        // No task was executed twice.
        &&& forall|i: int, j: int|
            0 <= i < j < self.finished.len() ==> (#[trigger] self.finished[i]).ticket
                != (#[trigger] self.finished[j]).ticket
        // No task that was executed is being executed again.
        &&& forall|i: int, w: int|
            0 <= i < self.finished.len() && 0 <= w < self.workers.len()
                ==> #[trigger] self.workers[w] != Slot::Running(
                (#[trigger] self.finished[i]).ticket,
            )
        // Every task handed out is in a worker's hands or done.
        &&& forall|t: nat| t < self.started ==> #[trigger] self.accounted(t)
        // A worker stops only when the pool is shutting down and nothing waits.
        &&& forall|w: int|
            0 <= w < self.workers.len() && (#[trigger] self.workers[w]) is Terminated ==> self.closed
                && self.started == self.submitted.len()
    }
}

} // verus!
