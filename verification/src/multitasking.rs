//! A round-robin executor: tasks are polled in the order they were queued,
//! and a task that is not finished goes to the back of the queue.
use vstd::prelude::*;
use std::collections::VecDeque;

verus! {

#[derive(Clone, Copy, Debug, PartialEq, Eq, Structural)]
pub enum Priority {
    High,
    Default,
}

impl Priority {
    /// The priority's number; smaller is more urgent.
    pub fn value(&self) -> (v: u8)
        ensures
            v == match *self {
                Priority::High => 0u8,
                Priority::Default => 10u8,
            },
    {
        match *self {
            Priority::High => 0,
            Priority::Default => 10,
        }
    }
}

/// A unit of work with its priority; `future` is what gets polled.
pub struct Task<F> {
    pub priority: Priority,
    pub future: F,
}

impl<F> Task<F> {
    pub fn new(priority: Priority, future: F) -> (t: Self)
        ensures
            t.priority == priority,
            t.future == future,
    {
        Task { priority, future }
    }
}

/// Tasks are equal when their priorities are.
impl<F> PartialEq for Task<F> {
    fn eq(&self, other: &Self) -> (r: bool) {
        self.priority == other.priority
    }
}

impl<F> vstd::std_specs::cmp::PartialEqSpecImpl for Task<F> {
    open spec fn obeys_eq_spec() -> bool {
        true
    }

    open spec fn eq_spec(&self, other: &Self) -> bool {
        self.priority == other.priority
    }
}

/// The queue of tasks waiting to be polled.
pub struct Executor<T> {
    task_queue: VecDeque<T>,
}

impl<T> View for Executor<T> {
    type V = Seq<T>;

    closed spec fn view(&self) -> Seq<T> {
        self.task_queue@
    }
}

impl<T> Executor<T> {
    pub fn new() -> (e: Self)
        ensures
            e@ == Seq::<T>::empty(),
    {
        Executor { task_queue: VecDeque::new() }
    }

    /// Queues a new task behind the others.
    pub fn spawn(&mut self, task: T)
        ensures
            final(self)@ == old(self)@.push(task),
    {
        self.task_queue.push_back(task);
    }

    /// The task to poll next: the one at the front, taken off the queue.
    pub fn next_task(&mut self) -> (t: Option<T>)
        ensures
            old(self)@.len() == 0 ==> t is None && final(self)@ == old(self)@,
            old(self)@.len() > 0 ==> t == Some(old(self)@[0]) && final(self)@ == old(self)@.drop_first(),
    {
        self.task_queue.pop_front()
    }

    /// A task was polled: a finished one is dropped, a pending one goes to
    /// the back of the queue.
    pub fn polled(&mut self, task: T, ready: bool)
        ensures
            final(self)@ == if ready {
                old(self)@
            } else {
                old(self)@.push(task)
            },
    {
        if !ready {
            self.task_queue.push_back(task);
        }
    }
}

/// Polling the front task of a queue and finding it pending moves it to the
/// back; every other task moves one place to the front.
pub proof fn lemma_round_robin<T>(q: Seq<T>)
    requires
        q.len() > 0,
    ensures
        q.drop_first().push(q[0]).len() == q.len(),
        q.drop_first().push(q[0]).last() == q[0],
        forall|i: int| 0 <= i < q.len() - 1 ==> #[trigger] q.drop_first().push(q[0])[i] == q[i + 1],
{
}

} // verus!
