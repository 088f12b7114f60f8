//! The shared queue: a first-in, first-out line of tasks that stays open
//! while a producer handle is alive.
use std::collections::VecDeque;
use vstd::prelude::*;

verus! {

/// What a queue is, mathematically: the tasks that wait, oldest first, and
/// the number of live producer handles.
pub struct QueueState<T> {
    pub pending: Seq<T>,
    pub producers: nat,
}

impl<T> QueueState<T> {
    /// No producer is left, so nothing will be enqueued any more.
    pub open spec fn closed(self) -> bool {
        self.producers == 0
    }

    /// Closed, and nothing waits: consumers observe the terminal signal.
    pub open spec fn finished(self) -> bool {
        self.closed() && self.pending.len() == 0
    }
}

/// What one attempt to receive yields.
#[derive(Debug)]
pub enum Received<T> {
    /// The task at the head of the queue.
    Task(T),
    /// Nothing waits, but a producer is alive: a blocking consumer parks and
    /// tries again.
    Empty,
    /// Nothing waits and no producer is left.
    Closed,
}

/// A multi-producer queue of tasks.
pub struct TaskQueue<T> {
    tasks: VecDeque<T>,
    producers: usize,
}

impl<T> View for TaskQueue<T> {
    type V = QueueState<T>;

    closed spec fn view(&self) -> QueueState<T> {
        QueueState { pending: self.tasks@, producers: self.producers as nat }
    }
}

impl<T> TaskQueue<T> {
    /// An empty queue with one producer handle, that of its creator.
    pub fn new() -> (queue: Self)
        ensures
            queue@ == (QueueState::<T> { pending: Seq::empty(), producers: 1 }),
    {
        TaskQueue { tasks: VecDeque::new(), producers: 1 }
    }

    /// The number of tasks that wait.
    pub fn len(&self) -> (n: usize)
        ensures
            n == self@.pending.len(),
    {
        self.tasks.len()
    }

    /// The number of live producer handles.
    pub fn producers(&self) -> (n: usize)
        ensures
            n == self@.producers,
    {
        self.producers
    }

    /// Whether every producer handle has been released.
    pub fn is_closed(&self) -> (closed: bool)
        ensures
            closed == self@.closed(),
    {
        self.producers == 0
    }

    /// Clones a producer handle. Returns `false`, and changes nothing, where
    /// there is no handle to clone or the count cannot grow.
    pub fn add_producer(&mut self) -> (added: bool)
        ensures
            added == (1 <= old(self)@.producers < usize::MAX),
            added ==> final(self)@ == (QueueState {
                producers: old(self)@.producers + 1,
                ..old(self)@
            }),
            !added ==> final(self)@ == old(self)@,
    {
        if self.producers == 0 || self.producers == usize::MAX {
            false
        } else {
            self.producers = self.producers + 1;
            true
        }
    }

    /// Releases one producer handle; releasing the last one closes the queue.
    /// A closed queue stays as it is.
    pub fn release_producer(&mut self)
        ensures
            final(self)@ == (QueueState {
                producers: if old(self)@.producers == 0 {
                    0
                } else {
                    (old(self)@.producers - 1) as nat
                },
                ..old(self)@
            }),
    {
        if self.producers > 0 {
            self.producers = self.producers - 1;
        }
    }

    /// Appends `task` at the tail. Only a producer can enqueue, so the queue
    /// must be open.
    pub fn enqueue(&mut self, task: T)
        requires
            !old(self)@.closed(),
        ensures
            final(self)@ == (QueueState {
                pending: old(self)@.pending.push(task),
                ..old(self)@
            }),
    {
        self.tasks.push_back(task);
    }

    /// One attempt of a blocking receive: takes the head task if there is
    /// one, and otherwise tells an open queue from a closed one.
    pub fn dequeue(&mut self) -> (got: Received<T>)
        ensures
            match got {
                Received::Task(task) => {
                    &&& old(self)@.pending.len() > 0
                    &&& task == old(self)@.pending[0]
                    &&& final(self)@ == (QueueState {
                        pending: old(self)@.pending.drop_first(),
                        ..old(self)@
                    })
                },
                Received::Empty => {
                    &&& old(self)@.pending.len() == 0
                    &&& !old(self)@.closed()
                    &&& final(self)@ == old(self)@
                },
                Received::Closed => {
                    &&& old(self)@.finished()
                    &&& final(self)@ == old(self)@
                },
            },
    {
        match self.tasks.pop_front() {
            Some(task) => Received::Task(task),
            None => {
                if self.producers == 0 {
                    Received::Closed
                } else {
                    Received::Empty
                }
            },
        }
    }
}

} // verus!
