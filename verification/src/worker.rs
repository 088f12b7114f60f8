//! The life of one worker, from start to exit.
use vstd::prelude::*;

verus! {

/// Where a worker stands in its dispatch loop.
#[derive(Clone, Copy, PartialEq, Eq, Structural, Debug)]
pub enum WorkerState {
    /// Created, but the dispatch loop has not been entered yet.
    Starting,
    /// In the loop, waiting to receive the next task.
    Idle,
    /// Executing a task it received.
    Running,
    /// Has observed the closed queue and is leaving the loop.
    Draining,
    /// Has left the loop; joining it succeeds.
    Exited,
    /// Torn down by a task that aborted its thread; joining it reports the
    /// failure.
    Aborted,
}

/// What moves a worker from one state to the next.
#[derive(Clone, Copy, PartialEq, Eq, Structural, Debug)]
pub enum WorkerEvent {
    /// The worker entered its dispatch loop.
    Started,
    /// A receive returned a task.
    TaskReceived,
    /// The body of the task returned.
    TaskCompleted,
    /// The task aborted the thread that executed it.
    TaskAborted,
    /// A receive returned the closed signal.
    QueueClosed,
    /// The worker left its dispatch loop.
    Stopped,
}

impl WorkerState {
    /// The state that follows `self` on `event`, or `None` where the event
    /// cannot occur in `self`.
    pub open spec fn after(self, event: WorkerEvent) -> Option<WorkerState> {
        match (self, event) {
            (WorkerState::Starting, WorkerEvent::Started) => Some(WorkerState::Idle),
            (WorkerState::Idle, WorkerEvent::TaskReceived) => Some(WorkerState::Running),
            (WorkerState::Running, WorkerEvent::TaskCompleted) => Some(WorkerState::Idle),
            (WorkerState::Running, WorkerEvent::TaskAborted) => Some(WorkerState::Aborted),
            (WorkerState::Idle, WorkerEvent::QueueClosed) => Some(WorkerState::Draining),
            (WorkerState::Draining, WorkerEvent::Stopped) => Some(WorkerState::Exited),
            _ => None,
        }
    }

    /// Whether one event leads from `self` to `next`.
    pub open spec fn leads_to(self, next: WorkerState) -> bool {
        exists|event: WorkerEvent| self.after(event) == Some(next)
    }

    /// Whether the thread of the worker has ended, so that a join returns.
    pub open spec fn terminated(self) -> bool {
        self == WorkerState::Exited || self == WorkerState::Aborted
    }

    /// How many events a worker in this state still goes through before its
    /// thread ends, when every receive from now on returns the closed signal
    /// and no task aborts.
    pub open spec fn steps_to_exit(self) -> nat {
        match self {
            WorkerState::Starting => 3,
            WorkerState::Running => 3,
            WorkerState::Idle => 2,
            WorkerState::Draining => 1,
            WorkerState::Exited => 0,
            WorkerState::Aborted => 0,
        }
    }

    /// Applies `event` to the state.
    pub fn on(self, event: WorkerEvent) -> (next: Option<WorkerState>)
        ensures
            next == self.after(event),
    {
        match (self, event) {
            (WorkerState::Starting, WorkerEvent::Started) => Some(WorkerState::Idle),
            (WorkerState::Idle, WorkerEvent::TaskReceived) => Some(WorkerState::Running),
            (WorkerState::Running, WorkerEvent::TaskCompleted) => Some(WorkerState::Idle),
            (WorkerState::Running, WorkerEvent::TaskAborted) => Some(WorkerState::Aborted),
            (WorkerState::Idle, WorkerEvent::QueueClosed) => Some(WorkerState::Draining),
            (WorkerState::Draining, WorkerEvent::Stopped) => Some(WorkerState::Exited),
            _ => None,
        }
    }

    /// Whether the thread of the worker has ended.
    pub fn has_terminated(self) -> (ended: bool)
        ensures
            ended == self.terminated(),
    {
        matches!(self, WorkerState::Exited | WorkerState::Aborted)
    }
}

/// A worker exits only after it has observed the closed queue: `Exited` is
/// reached from `Draining` alone, and `Draining` only by the closed signal
/// of a receive.
pub proof fn law_exit_only_after_closure(state: WorkerState, event: WorkerEvent)
    ensures
        state.after(event) == Some(WorkerState::Exited) ==> state == WorkerState::Draining && event
            == WorkerEvent::Stopped,
        state.after(event) == Some(WorkerState::Draining) ==> state == WorkerState::Idle && event
            == WorkerEvent::QueueClosed,
{
}

/// Only a task can tear a worker down: `Aborted` is reached from `Running`
/// alone.
pub proof fn law_abort_only_while_running(state: WorkerState, event: WorkerEvent)
    ensures
        state.after(event) == Some(WorkerState::Aborted) ==> state == WorkerState::Running && event
            == WorkerEvent::TaskAborted,
{
}

/// A worker whose thread has ended accepts no further event.
pub proof fn law_terminated_is_final(state: WorkerState, event: WorkerEvent)
    requires
        state.terminated(),
    ensures
        state.after(event) is None,
{
}

/// Every event brings a worker closer to its exit, except the receipt of a
/// task, which costs it the two events of running the task and coming back.
pub proof fn law_events_count_down(state: WorkerState, event: WorkerEvent)
    requires
        state.after(event) is Some,
    ensures
        event != WorkerEvent::TaskReceived ==> state.after(event)->0.steps_to_exit()
            < state.steps_to_exit(),
        event == WorkerEvent::TaskReceived ==> state.after(event)->0.steps_to_exit()
            == state.steps_to_exit() + 1,
{
}

} // verus!
