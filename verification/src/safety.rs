//! What holds of a pool in every state it can reach: the invariant, the
//! proof that each step keeps it, and what follows from it.
use crate::model::{PoolState, Step};
use crate::worker::{WorkerEvent, WorkerState};
use vstd::prelude::*;

verus! {

impl<T> PoolState<T> {
    /// Nothing is lost or reordered on the way through the queue: the tasks
    /// dispatched so far, followed by those that wait, are the tasks
    /// submitted so far.
    pub open spec fn queue_inv(self) -> bool {
        self.dispatched + self.pending == self.submitted
    }

    /// The workers and the destructor keep to their protocol: there is a
    /// worker; the receive right is with an idle worker or with none; the
    /// workers that are joined have ended, and none is joined before the
    /// producer handle is gone; a worker leaves only a queue that is closed
    /// and empty.
    pub open spec fn lifecycle_inv(self) -> bool {
        &&& self.workers.len() >= 1
        &&& (self.receiver matches Some(h) ==> self.in_state(h, WorkerState::Idle))
        &&& self.joined <= self.workers.len()
        &&& (self.joined > 0 ==> !self.sender)
        &&& forall|w: int|
            self.workers.len() - self.joined <= w < self.workers.len() ==> (
            #[trigger] self.workers[w]).terminated()
        &&& forall|w: int|
            0 <= w < self.workers.len() && (#[trigger] self.workers[w] == WorkerState::Draining
                || self.workers[w] == WorkerState::Exited) ==> !self.sender && self.pending.len()
                == 0
    }

    /// Every dispatched ticket is either with exactly one worker, which runs
    /// it or was torn down by it, or in the log of completions, where it
    /// stands once.
    pub open spec fn tickets_inv(self) -> bool {
        &&& forall|w: int| #[trigger]
            self.taken.contains_key(w) ==> self.in_state(w, WorkerState::Running) || self.in_state(
                w,
                WorkerState::Aborted,
            )
        &&& forall|w: int|
            0 <= w < self.workers.len() && (#[trigger] self.workers[w] == WorkerState::Running
                || self.workers[w] == WorkerState::Aborted) ==> self.taken.contains_key(w)
        &&& forall|w: int| #[trigger]
            self.taken.contains_key(w) ==> 0 <= self.taken[w] < self.dispatched.len()
        &&& forall|w1: int, w2: int|
            #[trigger] self.taken.contains_key(w1) && #[trigger] self.taken.contains_key(w2) && w1
                != w2 ==> self.taken[w1] != self.taken[w2]
        &&& self.finished.no_duplicates()
        &&& forall|i: int|
            0 <= i < self.finished.len() ==> 0 <= #[trigger] self.finished[i]
                < self.dispatched.len()
        &&& forall|i: int, w: int|
            0 <= i < self.finished.len() && #[trigger] self.taken.contains_key(w)
                ==> #[trigger] self.finished[i] != self.taken[w]
        &&& forall|t: int|
            0 <= t < self.dispatched.len() ==> #[trigger] self.finished.contains(t) || self.held(t)
    }

    /// The invariant of the pool.
    pub open spec fn inv(self) -> bool {
        &&& self.lifecycle_inv()
        &&& self.queue_inv()
        &&& self.tickets_inv()
    }
}

/// A ticket that is accounted for, in the log of completions or with a
/// worker, stays so across a step that keeps the log and that worker's
/// ticket.
proof fn lemma_still_accounted<T>(s: PoolState<T>, next: PoolState<T>, t: int)
    requires
        s.finished.contains(t) || s.held(t),
        forall|i: int| 0 <= i < s.finished.len() ==> i < next.finished.len() && next.finished[i]
            == s.finished[i],
        forall|w: int| s.holds(w, t) ==> next.holds(w, t),
    ensures
        next.finished.contains(t) || next.held(t),
{
    if s.finished.contains(t) {
        let i = choose|i: int| 0 <= i < s.finished.len() && s.finished[i] == t;
        assert(next.finished[i] == t);
    } else {
        let w = choose|w: int| #[trigger] s.holds(w, t);
        assert(next.holds(w, t));
    }
}

/// A fresh pool with at least one worker satisfies the invariant.
pub proof fn lemma_init_inv<T>(size: nat)
    requires
        size >= 1,
    ensures
        PoolState::<T>::init(size).inv(),
{
    let fresh = PoolState::<T>::init(size);
    assert(fresh.dispatched + fresh.pending =~= fresh.submitted);
}

/// Submitting a task keeps the invariant.
pub proof fn lemma_submit_inv<T>(s: PoolState<T>, task: T)
    requires
        s.inv(),
        s.sender,
    ensures
        s.submit(task).inv(),
{
    let next = s.submit(task);
    assert(next.dispatched + next.pending =~= next.submitted);
    assert forall|t: int| 0 <= t < next.dispatched.len() implies #[trigger] next.finished.contains(t)
        || next.held(t) by {
        lemma_still_accounted(s, next, t);
    }
}

/// A worker that enters its loop keeps the invariant.
pub proof fn lemma_start_inv<T>(s: PoolState<T>, w: int)
    requires
        s.inv(),
        s.in_state(w, WorkerState::Starting),
    ensures
        s.start(w).inv(),
{
    let next = s.start(w);
    assert forall|t: int| 0 <= t < next.dispatched.len() implies #[trigger] next.finished.contains(t)
        || next.held(t) by {
        lemma_still_accounted(s, next, t);
    }
}

/// An attempt to receive keeps the invariant, whatever comes of it.
pub proof fn lemma_receive_inv<T>(s: PoolState<T>, w: int)
    requires
        s.inv(),
        s.in_state(w, WorkerState::Idle),
    ensures
        s.receive(w).inv(),
{
    let next = s.receive(w);
    if s.right_open_to(w) && s.pending.len() > 0 {
        let ticket = s.dispatched.len() as int;
        assert(next.dispatched + next.pending =~= s.dispatched + s.pending);
        assert forall|t: int| 0 <= t < next.dispatched.len() implies #[trigger] next.finished.contains(t)
            || next.held(t) by {
            if t == ticket {
                assert(next.holds(w, t));
            } else {
                lemma_still_accounted(s, next, t);
            }
        }
    } else {
        assert forall|t: int| 0 <= t < next.dispatched.len() implies #[trigger] next.finished.contains(t)
            || next.held(t) by {
            lemma_still_accounted(s, next, t);
        }
    }
}

/// The return of a task keeps the invariant.
pub proof fn lemma_complete_inv<T>(s: PoolState<T>, w: int)
    requires
        s.inv(),
        s.in_state(w, WorkerState::Running),
    ensures
        s.complete(w).inv(),
{
    let next = s.complete(w);
    let ticket = s.taken[w];
    assert forall|t: int| 0 <= t < next.dispatched.len() implies #[trigger] next.finished.contains(t)
        || next.held(t) by {
        if t == ticket {
            assert(next.finished[s.finished.len() as int] == t);
        } else {
            lemma_still_accounted(s, next, t);
        }
    }
}

/// A task that tears its worker down keeps the invariant: the pool is not
/// corrupted.
pub proof fn lemma_abort_inv<T>(s: PoolState<T>, w: int)
    requires
        s.inv(),
        s.in_state(w, WorkerState::Running),
    ensures
        s.abort(w).inv(),
{
    let next = s.abort(w);
    assert forall|t: int| 0 <= t < next.dispatched.len() implies #[trigger] next.finished.contains(t)
        || next.held(t) by {
        lemma_still_accounted(s, next, t);
    }
}

/// A worker that leaves its loop keeps the invariant.
pub proof fn lemma_stop_inv<T>(s: PoolState<T>, w: int)
    requires
        s.inv(),
        s.in_state(w, WorkerState::Draining),
    ensures
        s.stop(w).inv(),
{
    let next = s.stop(w);
    assert forall|t: int| 0 <= t < next.dispatched.len() implies #[trigger] next.finished.contains(t)
        || next.held(t) by {
        lemma_still_accounted(s, next, t);
    }
}

/// Releasing the producer handle keeps the invariant.
pub proof fn lemma_shutdown_inv<T>(s: PoolState<T>)
    requires
        s.inv(),
    ensures
        s.shutdown().inv(),
{
    let next = s.shutdown();
    assert forall|t: int| 0 <= t < next.dispatched.len() implies #[trigger] next.finished.contains(t)
        || next.held(t) by {
        lemma_still_accounted(s, next, t);
    }
}

/// An attempt to join keeps the invariant.
pub proof fn lemma_join_inv<T>(s: PoolState<T>)
    requires
        s.inv(),
        !s.sender,
    ensures
        s.join().inv(),
{
    let next = s.join();
    assert forall|t: int| 0 <= t < next.dispatched.len() implies #[trigger] next.finished.contains(t)
        || next.held(t) by {
        lemma_still_accounted(s, next, t);
    }
}

/// Every step that can be taken keeps the invariant.
pub proof fn lemma_step_inv<T>(s: PoolState<T>, step: Step<T>)
    requires
        s.inv(),
        s.enabled(step),
    ensures
        s.apply(step).inv(),
{
    match step {
        Step::Submit(task) => lemma_submit_inv(s, task),
        Step::Start(w) => lemma_start_inv(s, w),
        Step::Receive(w) => lemma_receive_inv(s, w),
        Step::Complete(w) => lemma_complete_inv(s, w),
        Step::Abort(w) => lemma_abort_inv(s, w),
        Step::Stop(w) => lemma_stop_inv(s, w),
        Step::Shutdown => lemma_shutdown_inv(s),
        Step::Join => lemma_join_inv(s),
    }
}

/// Every state that a fresh pool of at least one worker can reach satisfies
/// the invariant.
pub proof fn law_reachable_states_are_safe<T>(size: nat, steps: Seq<Step<T>>)
    requires
        size >= 1,
        PoolState::<T>::init(size).admits(steps),
    ensures
        PoolState::<T>::init(size).run(steps).inv(),
    decreases steps.len(),
{
    let fresh = PoolState::<T>::init(size);
    if steps.len() == 0 {
        lemma_init_inv::<T>(size);
    } else {
        law_reachable_states_are_safe::<T>(size, steps.drop_last());
        lemma_step_inv(fresh.run(steps.drop_last()), steps.last());
    }
}

/// No step changes the number of workers.
pub proof fn law_step_keeps_size<T>(s: PoolState<T>, step: Step<T>)
    requires
        s.enabled(step),
    ensures
        s.apply(step).size() == s.size(),
{
}

/// The number of workers is the one the pool was created with, whatever
/// happened since.
pub proof fn law_size_is_fixed<T>(size: nat, steps: Seq<Step<T>>)
    requires
        PoolState::<T>::init(size).admits(steps),
    ensures
        PoolState::<T>::init(size).run(steps).size() == size,
    decreases steps.len(),
{
    if steps.len() > 0 {
        law_size_is_fixed::<T>(size, steps.drop_last());
        law_step_keeps_size(PoolState::<T>::init(size).run(steps.drop_last()), steps.last());
    }
}

/// In one step of the pool each worker either stays as it is or takes one
/// step of its own life cycle.
pub proof fn law_workers_follow_life_cycle<T>(s: PoolState<T>, step: Step<T>, w: int)
    requires
        s.enabled(step),
        0 <= w < s.size(),
    ensures
        s.apply(step).workers[w] == s.workers[w] || s.workers[w].leads_to(
            s.apply(step).workers[w],
        ),
{
    let before = s.workers[w];
    let after = s.apply(step).workers[w];
    if after != before {
        let event = match step {
            Step::Start(_) => WorkerEvent::Started,
            Step::Receive(_) => if after == WorkerState::Running {
                WorkerEvent::TaskReceived
            } else {
                WorkerEvent::QueueClosed
            },
            Step::Complete(_) => WorkerEvent::TaskCompleted,
            Step::Abort(_) => WorkerEvent::TaskAborted,
            _ => WorkerEvent::Stopped,
        };
        assert(before.after(event) == Some(after));
    }
}

/// The producer handle is present from the creation of the pool until its
/// shutdown, and absent from then on: a fresh pool holds it, no step but the
/// shutdown takes it away, and no step brings it back.
pub proof fn law_sender_is_released_once<T>(size: nat, s: PoolState<T>, step: Step<T>)
    requires
        s.enabled(step),
    ensures
        PoolState::<T>::init(size).sender,
        s.sender && !(step is Shutdown) ==> s.apply(step).sender,
        step is Shutdown ==> !s.apply(step).sender,
        !s.sender ==> !s.apply(step).sender,
{
}

/// The destructor is done only when the thread of every worker has ended.
pub proof fn law_destruction_waits_for_every_worker<T>(s: PoolState<T>)
    requires
        s.inv(),
        s.destroyed(),
    ensures
        !s.sender,
        forall|w: int| 0 <= w < s.size() ==> s.workers[w].terminated(),
{
}

} // verus!
