//! One worker of the pool: an identity and a three-state life cycle.

use vstd::prelude::*;

verus! {

/// Where a worker stands in its life cycle.
#[derive(Clone, Copy, Debug, PartialEq, Eq, Structural)]
pub enum WorkerState {
    /// Waiting for a task.
    Idle,
    /// Occupied by one task until that task returns or panics.
    Running,
    /// Stopped for good; reached only from `Idle`, once the queue is closed and empty.
    Terminated,
}

/// What can happen to a worker.
#[derive(Clone, Copy, Debug, PartialEq, Eq, Structural)]
pub enum WorkerEvent {
    /// The queue handed the worker a task.
    TaskReceived,
    /// The task in hand returned.
    TaskCompleted,
    /// The task in hand panicked; the panic was caught.
    TaskPanicked,
    /// The queue reported that it is closed and holds nothing more.
    QueueClosed,
}

impl WorkerState {
    /// The transition relation: the state that `event` leads to from `self`,
    /// or `None` where the life cycle has no such transition.
    pub open spec fn next(self, event: WorkerEvent) -> Option<WorkerState> {
        match (self, event) {
            (WorkerState::Idle, WorkerEvent::TaskReceived) => Some(WorkerState::Running),
            (WorkerState::Running, WorkerEvent::TaskCompleted) => Some(WorkerState::Idle),
            (WorkerState::Running, WorkerEvent::TaskPanicked) => Some(WorkerState::Idle),
            (WorkerState::Idle, WorkerEvent::QueueClosed) => Some(WorkerState::Terminated),
            _ => None,
        }
    }

    /// Computes [`WorkerState::next`].
    pub fn step(self, event: WorkerEvent) -> (r: Option<WorkerState>)
        ensures
            r == self.next(event),
    {
        match self {
            WorkerState::Idle => match event {
                WorkerEvent::TaskReceived => Some(WorkerState::Running),
                WorkerEvent::QueueClosed => Some(WorkerState::Terminated),
                _ => None,
            },
            WorkerState::Running => match event {
                WorkerEvent::TaskCompleted => Some(WorkerState::Idle),
                WorkerEvent::TaskPanicked => Some(WorkerState::Idle),
                _ => None,
            },
            WorkerState::Terminated => None,
        }
    }
}

/// A worker: a stable small-integer id, used for diagnostics only, and its state.
#[derive(Clone, Copy, Debug)]
pub struct Worker {
    id: usize,
    state: WorkerState,
}

impl Worker {
    /// The worker's id.
    pub closed spec fn spec_id(&self) -> usize {
        self.id
    }

    /// The worker's state.
    pub closed spec fn spec_state(&self) -> WorkerState {
        self.state
    }

    /// A fresh worker with the given id, waiting for its first task.
    pub fn new(id: usize) -> (w: Worker)
        ensures
            w.spec_id() == id,
            w.spec_state() == WorkerState::Idle,
    {
        Worker { id, state: WorkerState::Idle }
    }

    /// The worker's id.
    #[verifier::when_used_as_spec(spec_id)]
    pub fn id(&self) -> (id: usize)
        ensures
            id == self.spec_id(),
    {
        self.id
    }

    /// The worker's state.
    #[verifier::when_used_as_spec(spec_state)]
    pub fn state(&self) -> (s: WorkerState)
        ensures
            s == self.spec_state(),
    {
        self.state
    }

    /// Applies `event` to the worker. Returns `true` and moves to the next state
    /// where the life cycle has a transition for `event`; otherwise returns
    /// `false` and leaves the worker as it was. The id never changes.
    pub fn handle(&mut self, event: WorkerEvent) -> (taken: bool)
        ensures
            final(self).id() == old(self).id(),
            taken == old(self).state().next(event).is_some(),
            final(self).state() == match old(self).state().next(event) {
                Some(s) => s,
                None => old(self).state(),
            },
    {
        match self.state.step(event) {
            Some(s) => {
                self.state = s;
                true
            },
            None => false,
        }
    }
}

/// A terminated worker never leaves that state.
pub proof fn lemma_terminated_is_final(event: WorkerEvent)
    ensures
        WorkerState::Terminated.next(event).is_none(),
{
}

/// A worker leaves `Running` only for `Idle`: a task that fails frees its
/// worker exactly as a task that returns does.
pub proof fn lemma_running_returns_to_idle(event: WorkerEvent)
    ensures
        WorkerState::Running.next(event) == Some(WorkerState::Idle)
            || WorkerState::Running.next(event).is_none(),
        WorkerState::Running.next(WorkerEvent::TaskCompleted) == Some(WorkerState::Idle),
        WorkerState::Running.next(WorkerEvent::TaskPanicked) == Some(WorkerState::Idle),
{
}

} // verus!
