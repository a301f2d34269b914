//! What the pool guarantees, whatever the order and timing of events.
//!
//! Every statement here is about the model of the pool and is proved for all
//! states that satisfy its invariant, or for all sequences of events.

use crate::model::{Claim, Event, Execution, PoolModel, Slot, TaskOutcome};
use crate::safety::{
    lemma_count_alive_update, lemma_count_alive_zero, lemma_count_running_bounded,
    lemma_count_running_none, lemma_count_running_update,
};
use vstd::prelude::*;

verus! {

impl<T> Event<T> {
    /// The same event, with a task's failure reported as success.
    pub open spec fn as_success(self) -> Event<T> {
        match self {
            Event::Finish(w, _) => Event::Finish(w, TaskOutcome::Completed),
            _ => self,
        }
    }
}

/// The same execution, recorded as a success.
pub open spec fn execution_as_success(e: Execution) -> Execution {
    Execution { outcome: TaskOutcome::Completed, ..e }
}

/// The same events, with every failure reported as success.
pub open spec fn events_as_success<T>(events: Seq<Event<T>>) -> Seq<Event<T>> {
    events.map_values(|e: Event<T>| e.as_success())
}

impl<T> PoolModel<T> {
    /// The same state, with every recorded failure turned into a success.
    pub open spec fn as_success(self) -> Self {
        PoolModel {
            finished: self.finished.map_values(|e: Execution| execution_as_success(e)),
            ..self
        }
    }

    /// Whether `self` can have come out of `earlier`: the same workers, none
    /// of them back from termination; nothing taken out of what was submitted
    /// or of what was recorded; nothing handed back; shutdown not undone.
    pub open spec fn extends(self, earlier: Self) -> bool {
        &&& self.workers.len() == earlier.workers.len()
        &&& forall|w: int|
            0 <= w < earlier.workers.len() && (#[trigger] earlier.workers[w]) is Terminated
                ==> self.workers[w] is Terminated
        &&& earlier.submitted.is_prefix_of(self.submitted)
        &&& earlier.started <= self.started
        &&& earlier.finished.is_prefix_of(self.finished)
        &&& earlier.closed ==> self.closed
    }

    /// One event never shrinks the pool or its history.
    pub proof fn lemma_step_extends(self, event: Event<T>)
        ensures
            self.step(event).extends(self),
    {
    }

    /// The number of workers is fixed, and history only grows: whatever
    /// happens, no worker is added or lost, a terminated worker stays
    /// terminated, an accepted task stays accepted under its ticket, a
    /// recorded execution stays recorded, and a shutdown is never undone.
    pub proof fn theorem_history_only_grows(self, events: Seq<Event<T>>)
        ensures
            self.run(events).extends(self),
            self.run(events).size() == self.size(),
        decreases events.len(),
    {
        if events.len() > 0 {
            let before = self.run(events.drop_last());
            self.theorem_history_only_grows(events.drop_last());
            before.lemma_step_extends(events.last());
        }
    }

    /// Every pool that was created with at least one worker satisfies the
    /// invariant, whatever has happened to it since.
    pub proof fn theorem_invariant_always(size: nat, events: Seq<Event<T>>)
        requires
            size > 0,
        ensures
            Self::init(size).run(events).inv(),
    {
        Self::lemma_init_inv(size);
        Self::init(size).lemma_run_inv(events);
    }

    /// There is no pool without workers: a state with no worker is not a
    /// state of any pool, and creating one is not a way to begin.
    pub proof fn theorem_no_pool_without_workers(self)
        ensures
            self.inv() ==> self.size() > 0,
            !Self::init(0).inv(),
    {
    }

    /// Every accepted task is in exactly one place: waiting in the queue, in
    /// a worker's hands, or done.
    pub proof fn theorem_tasks_conserved(self)
        requires
            self.inv(),
        ensures
            self.submitted.len() == self.pending().len() + self.running() + self.finished.len(),
    {
    }

    /// At no time are more tasks being executed than the pool has workers.
    pub proof fn theorem_concurrency_bounded(size: nat, events: Seq<Event<T>>)
        ensures
            Self::init(size).run(events).running() <= size,
    {
        let end = Self::init(size).run(events);
        Self::init(size).theorem_history_only_grows(events);
        lemma_count_running_bounded(end.workers);
    }

    /// No task is handed out twice, and none is executed twice. A ticket not
    /// yet handed out is neither running nor done; a ticket handed out is
    /// either in the hands of exactly one worker and not done, or done exactly
    /// once and in no worker's hands.
    pub proof fn theorem_executed_at_most_once(self, t: nat)
        requires
            self.inv(),
        ensures
            t >= self.started ==> !self.executing(t) && !self.executed(t),
            t < self.started ==> (self.executing(t) && !self.executed(t)) || (!self.executing(t)
                && self.executed_once(t)),
            forall|v: int, w: int|
                0 <= v < self.workers.len() && 0 <= w < self.workers.len() && self.workers[v]
                    == Slot::Running(t) && self.workers[w] == Slot::Running(t) ==> v == w,
    {
        if self.executed(t) {
            let i = choose|i: int| self.executed_at(t, i);
            assert(self.finished[i].ticket < self.started);
            assert forall|j: int| #[trigger] self.executed_at(t, j) implies j == i by {
                if j < i {
                    assert(self.finished[j].ticket != self.finished[i].ticket);
                } else if i < j {
                    assert(self.finished[i].ticket != self.finished[j].ticket);
                }
            }
            assert(self.executed_once(t));
            if self.executing(t) {
                let w = choose|w: int|
                    0 <= w < self.workers.len() && #[trigger] self.workers[w] == Slot::Running(t);
                assert(self.workers[w] != Slot::Running(self.finished[i].ticket));
            }
        }
        if self.executing(t) {
            let w = choose|w: int|
                0 <= w < self.workers.len() && #[trigger] self.workers[w] == Slot::Running(t);
            assert(t < self.started);
        }
        if t < self.started {
            assert(self.accounted(t));
        }
        assert forall|v: int, w: int|
            0 <= v < self.workers.len() && 0 <= w < self.workers.len() && self.workers[v]
                == Slot::Running(t) && self.workers[w] == Slot::Running(t) implies v == w by {
            if v != w {
                assert(self.workers[v] is Running);
                assert(self.workers[v] != self.workers[w]);
            }
        }
    }

    /// Once every worker has stopped, every accepted task has been executed
    /// exactly once: the pool is shutting down, the queue is empty, no task is
    /// running, and the record holds one execution per accepted task.
    pub proof fn theorem_terminated_means_drained(self)
        requires
            self.inv(),
            self.terminated(),
        ensures
            self.closed,
            self.pending().len() == 0,
            self.running() == 0,
            self.finished.len() == self.submitted.len(),
            forall|t: nat| t < self.submitted.len() ==> #[trigger] self.executed_once(t),
    {
        assert(self.workers[0] is Terminated);
        assert forall|w: int| 0 <= w < self.workers.len() implies !((
        #[trigger] self.workers[w]) is Running) by {
            assert(self.workers[w] is Terminated);
        }
        lemma_count_running_none(self.workers);
        assert forall|t: nat| t < self.submitted.len() implies #[trigger] self.executed_once(
            t,
        ) by {
            self.theorem_executed_at_most_once(t);
            if self.executing(t) {
                let w = choose|w: int|
                    0 <= w < self.workers.len() && #[trigger] self.workers[w] == Slot::Running(t);
                assert(self.workers[w] is Terminated);
            }
        }
    }

    /// A pool of `size` workers to which tasks are submitted in any order and
    /// at any time executes each accepted task exactly once: when its workers
    /// have all stopped, there are as many executions as accepted tasks, one
    /// for each.
    pub proof fn theorem_every_task_executed_exactly_once(size: nat, events: Seq<Event<T>>)
        requires
            size > 0,
        ensures
            ({
                let end = Self::init(size).run(events);
                end.terminated() ==> end.finished.len() == end.submitted.len() && forall|t: nat|
                    t < end.submitted.len() ==> #[trigger] end.executed_once(t)
            }),
    {
        let end = Self::init(size).run(events);
        Self::theorem_invariant_always(size, events);
        if end.terminated() {
            end.theorem_terminated_means_drained();
        }
    }

    /// A pool that is shutting down accepts nothing, whatever is offered.
    pub proof fn lemma_closed_accepts_nothing(self, events: Seq<Event<T>>)
        requires
            self.closed,
        ensures
            self.run(events).closed,
            self.run(events).submitted == self.submitted,
        decreases events.len(),
    {
        if events.len() > 0 {
            self.lemma_closed_accepts_nothing(events.drop_last());
        }
    }

    /// Shutdown drops no task. After shutdown has begun the set of accepted
    /// tasks is frozen, and when the last worker has stopped every one of
    /// them has been executed exactly once, including those that were still
    /// waiting when shutdown began.
    pub proof fn theorem_shutdown_drains(self, events: Seq<Event<T>>)
        requires
            self.inv(),
        ensures
            ({
                let end = self.close().run(events);
                &&& end.submitted == self.submitted
                &&& end.terminated() ==> end.finished.len() == self.submitted.len() && forall|
                    t: nat,
                |
                    t < self.submitted.len() ==> #[trigger] end.executed_once(t)
            }),
    {
        let end = self.close().run(events);
        self.lemma_step_inv(Event::Close);
        self.close().lemma_run_inv(events);
        self.close().lemma_closed_accepts_nothing(events);
        if end.terminated() {
            end.theorem_terminated_means_drained();
        }
    }

    /// Tasks leave the queue in the order in which they entered it, each one
    /// once: the tasks handed to workers while `events` are applied are the
    /// accepted tasks with the tickets from `started` before to `started`
    /// after, in ticket order.
    pub proof fn theorem_fifo_delivery(self, events: Seq<Event<T>>)
        requires
            self.inv(),
        ensures
            self.started <= self.run(events).started <= self.run(events).submitted.len(),
            self.deliveries(events) == self.run(events).submitted.subrange(
                self.started as int,
                self.run(events).started as int,
            ),
        decreases events.len(),
    {
        let end = self.run(events);
        self.lemma_run_inv(events);
        self.theorem_history_only_grows(events);
        if events.len() == 0 {
            assert(self.deliveries(events) =~= end.submitted.subrange(
                self.started as int,
                end.started as int,
            ));
        } else {
            let before = self.run(events.drop_last());
            self.theorem_fifo_delivery(events.drop_last());
            self.lemma_run_inv(events.drop_last());
            before.lemma_step_extends(events.last());
            assert(self.deliveries(events) =~= end.submitted.subrange(
                self.started as int,
                end.started as int,
            ));
        }
    }

    /// Shutdown comes to an end. Once shutdown has begun, every claim of an
    /// idle worker and every report of a running worker brings the pool
    /// strictly nearer to rest; as long as some worker has not stopped, some
    /// worker can make such a move; and a pool at rest has stopped all its
    /// workers. So a pool whose tasks all end stops after as many moves as
    /// `work_left` counts, and never gets stuck on the way.
    pub proof fn theorem_shutdown_makes_progress(self, w: nat, outcome: TaskOutcome)
        requires
            self.inv(),
            self.closed,
        ensures
            self.is_idle(w) ==> self.claim(w).work_left() < self.work_left(),
            self.is_running(w) ==> self.finish(w, outcome).work_left() < self.work_left(),
            !self.terminated() ==> exists|v: nat| self.is_idle(v) || self.is_running(v),
            self.work_left() == 0 <==> self.terminated(),
    {
        if self.is_idle(w) {
            if self.started < self.submitted.len() {
                lemma_count_running_update(self.workers, w as int, Slot::Running(self.started));
                lemma_count_alive_update(self.workers, w as int, Slot::Running(self.started));
            } else {
                lemma_count_running_update(self.workers, w as int, Slot::Terminated);
                lemma_count_alive_update(self.workers, w as int, Slot::Terminated);
            }
        }
        if self.is_running(w) {
            lemma_count_running_update(self.workers, w as int, Slot::Idle);
            lemma_count_alive_update(self.workers, w as int, Slot::Idle);
        }
        if !self.terminated() {
            let v = choose|v: int|
                0 <= v < self.workers.len() && !((#[trigger] self.workers[v]) is Terminated);
            assert(self.is_idle(v as nat) || self.is_running(v as nat));
        }
        lemma_count_alive_zero(self.workers);
        if self.terminated() {
            self.theorem_terminated_means_drained();
        }
    }

    /// A task that fails costs the pool nothing but that task: the worker
    /// that ran it is idle again, no worker is lost, the queue is untouched,
    /// and if a task is waiting, that same worker is given it on its next
    /// claim.
    pub proof fn theorem_failure_frees_worker(self, w: nat)
        requires
            self.inv(),
            self.is_running(w),
        ensures
            ({
                let after = self.finish(w, TaskOutcome::Panicked);
                &&& after.inv()
                &&& after.is_idle(w)
                &&& after.size() == self.size()
                &&& after.pending() == self.pending()
                &&& after.closed == self.closed
                &&& after.pending().len() > 0 ==> after.claim_result(w) == Some(
                    Claim::Run(after.pending()[0]),
                )
                &&& forall|v: int|
                    0 <= v < self.workers.len() && v != w ==> after.workers[v] == self.workers[v]
            }),
    {
        self.lemma_step_inv(Event::Finish(w, TaskOutcome::Panicked));
    }

    /// One event commutes with forgetting failures.
    pub proof fn lemma_step_as_success(self, event: Event<T>)
        ensures
            self.step(event).as_success() == self.as_success().step(event.as_success()),
    {
        let left = self.step(event).as_success();
        let right = self.as_success().step(event.as_success());
        assert(left.finished =~= right.finished);
        assert(left =~= right);
    }

    /// Failures do not steer the pool. Apply any sequence of events; then
    /// apply the same sequence with every failure replaced by a success. The
    /// two pools end up with the same workers in the same states holding the
    /// same tasks, the same queue, and the same executions recorded in the
    /// same order: they differ in the recorded outcomes and in nothing else.
    /// So a task that fails prevents no other task from being executed.
    pub proof fn theorem_failures_do_not_steer(self, events: Seq<Event<T>>)
        ensures
            self.run(events).as_success() == self.as_success().run(events_as_success(events)),
        decreases events.len(),
    {
        let calm = events_as_success(events);
        if events.len() > 0 {
            self.theorem_failures_do_not_steer(events.drop_last());
            self.run(events.drop_last()).lemma_step_as_success(events.last());
            assert(calm.drop_last() =~= events_as_success(events.drop_last()));
            assert(calm.last() == events.last().as_success());
        }
    }
}

} // verus!
