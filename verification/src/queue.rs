//! The task queue: a first-in, first-out channel that can be closed.
//!
//! Closing stops new tasks from entering; tasks already inside are still
//! handed out, in order, until none is left.

use std::collections::VecDeque;
use vstd::prelude::*;

verus! {

/// What a queue is, mathematically: the tasks waiting, oldest first, and
/// whether the queue has been closed.
#[verifier::ext_equal]
pub struct QueueView<T> {
    pub pending: Seq<T>,
    pub closed: bool,
}

/// A task that the queue refused because it is closed. The task is handed
/// back untouched.
#[derive(Debug, PartialEq, Eq)]
pub struct Rejected<T> {
    pub task: T,
}

/// What a consumer gets when it asks the queue for work.
#[derive(Debug, PartialEq, Eq)]
pub enum Delivery<T> {
    /// The oldest waiting task, now removed from the queue.
    Task(T),
    /// Nothing is waiting, but more may come.
    Empty,
    /// Nothing is waiting and nothing will come.
    Closed,
}

/// A closable FIFO queue of tasks.
pub struct TaskQueue<T> {
    items: VecDeque<T>,
    closed: bool,
}

impl<T> View for TaskQueue<T> {
    type V = QueueView<T>;

    closed spec fn view(&self) -> QueueView<T> {
        QueueView { pending: self.items@, closed: self.closed }
    }
}

impl<T> QueueView<T> {
    /// What `recv` hands out in this state.
    pub open spec fn delivery(self) -> Delivery<T> {
        if self.pending.len() > 0 {
            Delivery::Task(self.pending[0])
        } else if self.closed {
            Delivery::Closed
        } else {
            Delivery::Empty
        }
    }

    /// The state that `recv` leaves behind: the oldest task is gone, if there was one.
    pub open spec fn after_recv(self) -> QueueView<T> {
        if self.pending.len() > 0 {
            QueueView { pending: self.pending.skip(1), closed: self.closed }
        } else {
            self
        }
    }
}

impl<T> TaskQueue<T> {
    /// An open queue with nothing in it.
    pub fn new() -> (q: Self)
        ensures
            q@.pending == Seq::<T>::empty(),
            !q@.closed,
    {
        TaskQueue { items: VecDeque::new(), closed: false }
    }

    /// Appends `task` behind everything already waiting. A closed queue takes
    /// nothing: it returns the task inside `Rejected` and stays as it was.
    pub fn send(&mut self, task: T) -> (r: Result<(), Rejected<T>>)
        ensures
            old(self)@.closed ==> r == Err::<(), Rejected<T>>(Rejected { task }) && final(self)@
                == old(self)@,
            !old(self)@.closed ==> r.is_ok() && final(self)@ == (QueueView {
                pending: old(self)@.pending.push(task),
                closed: false,
            }),
    {
        if self.closed {
            Err(Rejected { task })
        } else {
            self.items.push_back(task);
            Ok(())
        }
    }

    /// Takes the oldest waiting task, if any. With nothing waiting, says
    /// whether more may come (`Empty`) or not (`Closed`).
    pub fn recv(&mut self) -> (d: Delivery<T>)
        ensures
            d == old(self)@.delivery(),
            final(self)@ == old(self)@.after_recv(),
    {
        match self.items.pop_front() {
            Some(task) => {
                assert(old(self)@.pending.skip(1) =~= old(self)@.pending.subrange(
                    1,
                    old(self)@.pending.len() as int,
                ));
                Delivery::Task(task)
            },
            None => if self.closed {
                Delivery::Closed
            } else {
                Delivery::Empty
            },
        }
    }

    /// Closes the queue. What is waiting stays; closing twice changes nothing.
    pub fn close(&mut self)
        ensures
            final(self)@ == (QueueView { pending: old(self)@.pending, closed: true }),
    {
        self.closed = true;
    }

    /// How many tasks are waiting.
    pub fn len(&self) -> (n: usize)
        ensures
            n == self@.pending.len(),
    {
        self.items.len()
    }

    /// Whether the queue has been closed.
    pub fn is_closed(&self) -> (b: bool)
        ensures
            b == self@.closed,
    {
        self.closed
    }
}

} // verus!
