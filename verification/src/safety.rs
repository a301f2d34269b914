//! The invariant of the pool holds at the start and survives every event.

use crate::model::{count_alive, count_running, Event, PoolModel, Slot, TaskOutcome};
use vstd::prelude::*;

verus! {

/// One if the slot is running, else zero.
pub open spec fn running_weight(slot: Slot) -> nat {
    if slot is Running {
        1
    } else {
        0
    }
}

/// There are never more running slots than slots.
pub proof fn lemma_count_running_bounded(slots: Seq<Slot>)
    ensures
        count_running(slots) <= slots.len(),
    decreases slots.len(),
{
    if slots.len() > 0 {
        lemma_count_running_bounded(slots.drop_last());
    }
}

/// Where no slot is running, the count is zero.
pub proof fn lemma_count_running_none(slots: Seq<Slot>)
    requires
        forall|i: int| 0 <= i < slots.len() ==> !((#[trigger] slots[i]) is Running),
    ensures
        count_running(slots) == 0,
    decreases slots.len(),
{
    if slots.len() > 0 {
        assert(!(slots[slots.len() - 1] is Running));
        lemma_count_running_none(slots.drop_last());
    }
}

/// Replacing one slot changes the count by what the new slot adds and the old
/// one took.
pub proof fn lemma_count_running_update(slots: Seq<Slot>, i: int, slot: Slot)
    requires
        0 <= i < slots.len(),
    ensures
        count_running(slots.update(i, slot)) + running_weight(slots[i]) == count_running(slots)
            + running_weight(slot),
    decreases slots.len(),
{
    let changed = slots.update(i, slot);
    if i == slots.len() - 1 {
        assert(changed.drop_last() =~= slots.drop_last());
    } else {
        assert(changed.drop_last() =~= slots.drop_last().update(i, slot));
        lemma_count_running_update(slots.drop_last(), i, slot);
    }
}

/// Counting one slot further adds that slot's weight.
pub proof fn lemma_count_running_take(slots: Seq<Slot>, i: int)
    requires
        0 <= i < slots.len(),
    ensures
        count_running(slots.take(i + 1)) == count_running(slots.take(i)) + running_weight(
            slots[i],
        ),
{
    assert(slots.take(i + 1).drop_last() =~= slots.take(i));
}

/// One if the slot has not terminated, else zero.
pub open spec fn alive_weight(slot: Slot) -> nat {
    if slot is Terminated {
        0
    } else {
        1
    }
}

/// Replacing one slot changes the number of live slots by what the new slot
/// adds and the old one took.
pub proof fn lemma_count_alive_update(slots: Seq<Slot>, i: int, slot: Slot)
    requires
        0 <= i < slots.len(),
    ensures
        count_alive(slots.update(i, slot)) + alive_weight(slots[i]) == count_alive(slots)
            + alive_weight(slot),
    decreases slots.len(),
{
    let changed = slots.update(i, slot);
    if i == slots.len() - 1 {
        assert(changed.drop_last() =~= slots.drop_last());
    } else {
        assert(changed.drop_last() =~= slots.drop_last().update(i, slot));
        lemma_count_alive_update(slots.drop_last(), i, slot);
    }
}

/// No slot is alive exactly when every slot has terminated.
pub proof fn lemma_count_alive_zero(slots: Seq<Slot>)
    ensures
        count_alive(slots) == 0 <==> forall|i: int|
            0 <= i < slots.len() ==> (#[trigger] slots[i]) is Terminated,
    decreases slots.len(),
{
    if slots.len() > 0 {
        let front = slots.drop_last();
        lemma_count_alive_zero(front);
        if count_alive(slots) == 0 {
            assert forall|i: int| 0 <= i < slots.len() implies (#[trigger] slots[i]) is Terminated by {
                if i < slots.len() - 1 {
                    assert(front[i] is Terminated);
                }
            }
        }
        if forall|i: int| 0 <= i < slots.len() ==> (#[trigger] slots[i]) is Terminated {
            assert(slots[slots.len() - 1] is Terminated);
            assert forall|i: int| 0 <= i < front.len() implies (#[trigger] front[i]) is Terminated by {
                assert(slots[i] is Terminated);
            }
        }
    }
}

impl<T> PoolModel<T> {
    /// A new pool with at least one worker satisfies the invariant.
    pub proof fn lemma_init_inv(size: nat)
        requires
            size > 0,
        ensures
            Self::init(size).inv(),
    {
        let m = Self::init(size);
        lemma_count_running_none(m.workers);
    }

    proof fn lemma_submit_inv(self, task: T)
        requires
            self.inv(),
        ensures
            self.submit(task).inv(),
    {
        let n = self.submit(task);
        if !self.closed {
            assert forall|t: nat| t < n.started implies #[trigger] n.accounted(t) by {
                assert(self.accounted(t));
                if self.executed(t) {
                    let i = choose|i: int| self.executed_at(t, i);
                    assert(n.executed_at(t, i));
                }
            }
        }
    }

    proof fn lemma_claim_inv(self, w: nat)
        requires
            self.inv(),
        ensures
            self.claim(w).inv(),
    {
        let n = self.claim(w);
        if self.is_idle(w) {
            if self.started < self.submitted.len() {
                lemma_count_running_update(self.workers, w as int, Slot::Running(self.started));
                assert forall|t: nat| t < n.started implies #[trigger] n.accounted(t) by {
                    if t == self.started {
                        assert(n.workers[w as int] == Slot::Running(t));
                    } else {
                        assert(self.accounted(t));
                        if self.executing(t) {
                            let v = choose|v: int|
                                0 <= v < self.workers.len() && #[trigger] self.workers[v]
                                    == Slot::Running(t);
                            assert(n.workers[v] == Slot::Running(t));
                        } else {
                            let i = choose|i: int| self.executed_at(t, i);
                            assert(n.executed_at(t, i));
                        }
                    }
                }
            } else if self.closed {
                lemma_count_running_update(self.workers, w as int, Slot::Terminated);
                assert forall|t: nat| t < n.started implies #[trigger] n.accounted(t) by {
                    assert(self.accounted(t));
                    if self.executing(t) {
                        let v = choose|v: int|
                            0 <= v < self.workers.len() && #[trigger] self.workers[v]
                                == Slot::Running(t);
                        assert(n.workers[v] == Slot::Running(t));
                    } else {
                        let i = choose|i: int| self.executed_at(t, i);
                        assert(n.executed_at(t, i));
                    }
                }
            }
        }
    }

    proof fn lemma_finish_inv(self, w: nat, outcome: TaskOutcome)
        requires
            self.inv(),
        ensures
            self.finish(w, outcome).inv(),
    {
        let n = self.finish(w, outcome);
        if self.is_running(w) {
            let ticket = self.workers[w as int]->Running_0;
            let last = self.finished.len() as int;
            assert(self.workers[w as int] == Slot::Running(ticket));
            lemma_count_running_update(self.workers, w as int, Slot::Idle);
            assert(n.finished[last].ticket == ticket);
            assert forall|i: int, j: int| 0 <= i < j < n.finished.len() implies (
            #[trigger] n.finished[i]).ticket != (#[trigger] n.finished[j]).ticket by {
                if j == last {
                    assert(self.workers[w as int] != Slot::Running(self.finished[i].ticket));
                }
            }
            assert forall|i: int, v: int|
                0 <= i < n.finished.len() && 0 <= v < n.workers.len() implies #[trigger] n.workers[v]
                != Slot::Running((#[trigger] n.finished[i]).ticket) by {
                if v != w {
                    if i == last {
                        assert(self.workers[w as int] != self.workers[v]);
                    } else {
                        assert(self.workers[v] != Slot::Running(self.finished[i].ticket));
                    }
                }
            }
            assert forall|t: nat| t < n.started implies #[trigger] n.accounted(t) by {
                assert(self.accounted(t));
                if t == ticket {
                    assert(n.executed_at(t, last));
                } else if self.executing(t) {
                    let v = choose|v: int|
                        0 <= v < self.workers.len() && #[trigger] self.workers[v] == Slot::Running(
                            t,
                        );
                    assert(n.workers[v] == Slot::Running(t));
                } else {
                    let i = choose|i: int| self.executed_at(t, i);
                    assert(n.executed_at(t, i));
                }
            }
        }
    }

    proof fn lemma_close_inv(self)
        requires
            self.inv(),
        ensures
            self.close().inv(),
    {
        let n = self.close();
        assert forall|t: nat| t < n.started implies #[trigger] n.accounted(t) by {
            assert(self.accounted(t));
            if self.executing(t) {
                let v = choose|v: int|
                    0 <= v < self.workers.len() && #[trigger] self.workers[v] == Slot::Running(t);
                assert(n.workers[v] == Slot::Running(t));
            } else {
                let i = choose|i: int| self.executed_at(t, i);
                assert(n.executed_at(t, i));
            }
        }
    }

    /// Every event preserves the invariant.
    pub proof fn lemma_step_inv(self, event: Event<T>)
        requires
            self.inv(),
        ensures
            self.step(event).inv(),
    {
        match event {
            Event::Submit(task) => self.lemma_submit_inv(task),
            Event::Claim(w) => self.lemma_claim_inv(w),
            Event::Finish(w, outcome) => self.lemma_finish_inv(w, outcome),
            Event::Close => self.lemma_close_inv(),
        }
    }

    /// Every sequence of events preserves the invariant.
    pub proof fn lemma_run_inv(self, events: Seq<Event<T>>)
        requires
            self.inv(),
        ensures
            self.run(events).inv(),
        decreases events.len(),
    {
        if events.len() > 0 {
            self.lemma_run_inv(events.drop_last());
            self.run(events.drop_last()).lemma_step_inv(events.last());
        }
    }
}

} // verus!
