//! The pool as a state machine: its state, the steps that change it, and the
//! runs that lead from a fresh pool to any state it can be in.
use crate::worker::WorkerState;
use vstd::prelude::*;

verus! {

/// The state of a pool.
///
/// Tasks are told apart by their ticket: the position at which they were
/// submitted. The log of dispatches and the log of completions make it
/// possible to say of every ticket what became of it.
pub struct PoolState<T> {
    /// The state of each worker, by its index. The length never changes.
    pub workers: Seq<WorkerState>,
    /// The tasks that wait in the queue, oldest first.
    pub pending: Seq<T>,
    /// Whether the pool still holds its producer handle. The queue is closed
    /// once it is gone.
    pub sender: bool,
    /// The worker that holds the receive right, if any does.
    pub receiver: Option<int>,
    /// How many workers the destructor has joined, counted from the last.
    pub joined: nat,
    /// Every task that was ever submitted, in the order of submission.
    pub submitted: Seq<T>,
    /// Every task that was ever handed to a worker, in the order of dispatch.
    pub dispatched: Seq<T>,
    /// The ticket that a worker has taken and not completed: that of the
    /// task it runs, or of the task that tore it down.
    pub taken: Map<int, int>,
    /// The tickets of the tasks whose body has returned, in that order.
    pub finished: Seq<int>,
}

/// One step of the pool or of one of its workers.
pub enum Step<T> {
    /// A producer submits a task.
    Submit(T),
    /// A worker enters its dispatch loop.
    Start(int),
    /// A worker tries to receive.
    Receive(int),
    /// The task that a worker executes returns.
    Complete(int),
    /// The task that a worker executes aborts the worker's thread.
    Abort(int),
    /// A worker that saw the closed queue leaves its loop.
    Stop(int),
    /// The destructor releases the pool's producer handle.
    Shutdown,
    /// The destructor tries to join the next worker.
    Join,
}

impl<T> PoolState<T> {
    /// A fresh pool of `size` workers.
    pub open spec fn init(size: nat) -> Self {
        PoolState {
            workers: Seq::new(size, |w: int| WorkerState::Starting),
            pending: Seq::empty(),
            sender: true,
            receiver: None,
            joined: 0,
            submitted: Seq::empty(),
            dispatched: Seq::empty(),
            taken: Map::empty(),
            finished: Seq::empty(),
        }
    }

    /// The number of workers.
    pub open spec fn size(self) -> nat {
        self.workers.len()
    }

    /// Whether `w` is a worker of this pool in state `state`.
    pub open spec fn in_state(self, w: int, state: WorkerState) -> bool {
        0 <= w < self.workers.len() && self.workers[w] == state
    }

    /// Whether worker `w` may receive: the receive right is free, or `w`
    /// holds it already.
    pub open spec fn right_open_to(self, w: int) -> bool {
        self.receiver is None || self.receiver == Some(w)
    }

    /// Whether worker `w` has taken the task with ticket `t` and not
    /// completed it.
    pub open spec fn holds(self, w: int, t: int) -> bool {
        self.taken.contains_key(w) && self.taken[w] == t
    }

    /// Whether some worker has taken the task with ticket `t` and not
    /// completed it.
    pub open spec fn held(self, t: int) -> bool {
        exists|w: int| #[trigger] self.holds(w, t)
    }

    /// Whether some worker executes the task with ticket `t`.
    pub open spec fn in_flight(self, t: int) -> bool {
        exists|w: int| #[trigger] self.holds(w, t) && self.in_state(w, WorkerState::Running)
    }

    /// Whether the task with ticket `t` tore down the worker that executed
    /// it.
    pub open spec fn lost(self, t: int) -> bool {
        exists|w: int| #[trigger] self.holds(w, t) && self.in_state(w, WorkerState::Aborted)
    }

    /// How often the task with ticket `t` has run to completion.
    pub open spec fn completions(self, t: int) -> nat {
        self.finished.to_multiset().count(t)
    }

    /// Whether the destructor has joined every worker.
    pub open spec fn destroyed(self) -> bool {
        self.joined == self.workers.len()
    }

    /// The worker that the destructor joins next: the last one not joined.
    pub open spec fn join_target(self) -> int {
        self.workers.len() - self.joined - 1
    }

    /// Whether a join would return now: a worker is left to join, and its
    /// thread has ended.
    pub open spec fn can_join(self) -> bool {
        self.joined < self.workers.len() && self.workers[self.join_target()].terminated()
    }

    /// The task goes to the tail of the queue.
    pub open spec fn submit(self, task: T) -> Self {
        PoolState {
            pending: self.pending.push(task),
            submitted: self.submitted.push(task),
            ..self
        }
    }

    /// Worker `w` enters its loop.
    pub open spec fn start(self, w: int) -> Self {
        PoolState { workers: self.workers.update(w, WorkerState::Idle), ..self }
    }

    /// Worker `w` tries to receive.
    ///
    /// While another worker holds the receive right, nothing changes. With
    /// the right, `w` takes the oldest task and gives the right up before
    /// it runs the task; or, the queue being empty and open, keeps the right
    /// and waits; or, the queue being empty and closed, gives the right up
    /// and starts to leave.
    pub open spec fn receive(self, w: int) -> Self {
        if !self.right_open_to(w) {
            self
        } else if self.pending.len() > 0 {
            PoolState {
                workers: self.workers.update(w, WorkerState::Running),
                pending: self.pending.drop_first(),
                receiver: None,
                dispatched: self.dispatched.push(self.pending[0]),
                taken: self.taken.insert(w, self.dispatched.len() as int),
                ..self
            }
        } else if self.sender {
            PoolState { receiver: Some(w), ..self }
        } else {
            PoolState {
                workers: self.workers.update(w, WorkerState::Draining),
                receiver: None,
                ..self
            }
        }
    }

    /// The task that worker `w` executes returns.
    pub open spec fn complete(self, w: int) -> Self {
        PoolState {
            workers: self.workers.update(w, WorkerState::Idle),
            taken: self.taken.remove(w),
            finished: self.finished.push(self.taken[w]),
            ..self
        }
    }

    /// The task that worker `w` executes aborts the thread of `w`. The
    /// worker keeps the ticket: the task is lost with it.
    pub open spec fn abort(self, w: int) -> Self {
        PoolState { workers: self.workers.update(w, WorkerState::Aborted), ..self }
    }

    /// Worker `w` leaves its loop.
    pub open spec fn stop(self, w: int) -> Self {
        PoolState { workers: self.workers.update(w, WorkerState::Exited), ..self }
    }

    /// The pool gives up its producer handle.
    pub open spec fn shutdown(self) -> Self {
        PoolState { sender: false, ..self }
    }

    /// The destructor joins the next worker if the thread of that worker has
    /// ended, and goes on waiting if not.
    pub open spec fn join(self) -> Self {
        if self.can_join() {
            PoolState { joined: self.joined + 1, ..self }
        } else {
            self
        }
    }

    /// Whether `step` can be taken in this state.
    pub open spec fn enabled(self, step: Step<T>) -> bool {
        match step {
            Step::Submit(_) => self.sender,
            Step::Start(w) => self.in_state(w, WorkerState::Starting),
            Step::Receive(w) => self.in_state(w, WorkerState::Idle),
            Step::Complete(w) => self.in_state(w, WorkerState::Running),
            Step::Abort(w) => self.in_state(w, WorkerState::Running),
            Step::Stop(w) => self.in_state(w, WorkerState::Draining),
            Step::Shutdown => true,
            Step::Join => !self.sender,
        }
    }

    /// The state after `step`.
    pub open spec fn apply(self, step: Step<T>) -> Self {
        match step {
            Step::Submit(task) => self.submit(task),
            Step::Start(w) => self.start(w),
            Step::Receive(w) => self.receive(w),
            Step::Complete(w) => self.complete(w),
            Step::Abort(w) => self.abort(w),
            Step::Stop(w) => self.stop(w),
            Step::Shutdown => self.shutdown(),
            Step::Join => self.join(),
        }
    }

    /// Whether the steps can be taken one after the other from this state.
    pub open spec fn admits(self, steps: Seq<Step<T>>) -> bool
        decreases steps.len(),
    {
        steps.len() == 0 || (self.admits(steps.drop_last()) && self.run(steps.drop_last()).enabled(
            steps.last(),
        ))
    }

    /// The state after all of `steps`.
    pub open spec fn run(self, steps: Seq<Step<T>>) -> Self
        decreases steps.len(),
    {
        if steps.len() == 0 {
            self
        } else {
            self.run(steps.drop_last()).apply(steps.last())
        }
    }
}

} // verus!
