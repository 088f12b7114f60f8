//! Dispatch: in which order the tasks leave the queue, who may take them,
//! and that the workers take them side by side.
use crate::model::{PoolState, Step};
use crate::safety::lemma_receive_inv;
use crate::worker::WorkerState;
use vstd::prelude::*;

verus! {

impl<T> PoolState<T> {
    /// The state after each of the first `n` workers has tried to receive,
    /// one after the other, and no task has returned in between.
    pub open spec fn receive_each(self, n: nat) -> Self
        decreases n,
    {
        if n == 0 {
            self
        } else {
            self.receive_each((n - 1) as nat).receive(n - 1)
        }
    }
}

/// First in, first out: the tasks are dispatched in the order in which they
/// were submitted. The k-th task handed to a worker is the k-th task
/// submitted, and the tasks that wait are the rest, in the same order.
pub proof fn law_dispatch_follows_submission<T>(s: PoolState<T>)
    requires
        s.inv(),
    ensures
        s.dispatched.len() + s.pending.len() == s.submitted.len(),
        forall|k: int| 0 <= k < s.dispatched.len() ==> s.dispatched[k] == s.submitted[k],
        forall|k: int|
            0 <= k < s.pending.len() ==> s.pending[k] == s.submitted[s.dispatched.len() + k],
{
    let whole = s.dispatched + s.pending;
    assert forall|k: int| 0 <= k < s.dispatched.len() implies s.dispatched[k] == s.submitted[k] by {
        assert(whole[k] == s.dispatched[k]);
    }
    assert forall|k: int| 0 <= k < s.pending.len() implies s.pending[k] == s.submitted[s.dispatched.len()
        + k] by {
        assert(whole[s.dispatched.len() + k] == s.pending[k]);
    }
}

/// A receive hands out the task that was submitted first among those that
/// wait, under the next ticket, and no later task before it.
pub proof fn law_receive_takes_the_oldest<T>(s: PoolState<T>, w: int)
    requires
        s.inv(),
        s.in_state(w, WorkerState::Idle),
        s.right_open_to(w),
        s.pending.len() > 0,
    ensures
        s.receive(w).holds(w, s.dispatched.len() as int),
        s.receive(w).dispatched == s.dispatched.push(s.submitted[s.dispatched.len() as int]),
        s.receive(w).submitted == s.submitted,
{
    law_dispatch_follows_submission(s);
}

/// The receive right is never held across the execution of a task: its
/// holder is idle. A task that aborts therefore never takes the right with
/// it.
pub proof fn law_right_is_held_by_idle_workers_only<T>(s: PoolState<T>)
    requires
        s.inv(),
    ensures
        s.receiver matches Some(holder) ==> s.in_state(holder, WorkerState::Idle),
        forall|w: int|
            0 <= w < s.size() && s.workers[w] != WorkerState::Idle ==> s.receiver != Some(w),
{
}

/// Parallel dispatch: a worker that is busy with a task, or was torn down by
/// one, never keeps the others from the queue. While a task waits and some
/// worker is idle, there is an idle worker whose next receive gets the task
/// and sets the right free again. The worker that is returned is such a one.
pub proof fn law_busy_workers_do_not_block_dispatch<T>(s: PoolState<T>, idle: int) -> (w: int)
    requires
        s.inv(),
        s.in_state(idle, WorkerState::Idle),
        s.pending.len() > 0,
    ensures
        s.in_state(w, WorkerState::Idle),
        s.right_open_to(w),
        s.receive(w).in_state(w, WorkerState::Running),
        s.receive(w).holds(w, s.dispatched.len() as int),
        s.receive(w).receiver is None,
{
    match s.receiver {
        Some(holder) => holder,
        None => idle,
    }
}

/// While the pool holds its producer handle no worker leaves its loop and
/// none is joined: the handle has to go before the destructor can join.
pub proof fn law_no_worker_exits_while_accepting<T>(s: PoolState<T>)
    requires
        s.inv(),
        s.sender,
    ensures
        forall|w: int|
            0 <= w < s.size() ==> s.workers[w] != WorkerState::Draining && s.workers[w]
                != WorkerState::Exited,
        s.joined == 0,
        !s.enabled(Step::Join),
{
}

/// A worker leaves only a queue that is closed and empty: while a task
/// waits, no worker has left or is about to.
pub proof fn law_no_worker_exits_before_the_queue_is_drained<T>(s: PoolState<T>, w: int)
    requires
        s.inv(),
        0 <= w < s.size(),
        s.pending.len() > 0,
    ensures
        s.workers[w] != WorkerState::Draining,
        s.workers[w] != WorkerState::Exited,
{
}

/// Side by side: the workers do not wait for each other's tasks. When `n`
/// idle workers receive one after the other while `n` tasks wait and the
/// right is free, every one of them gets a task, the oldest first, and all
/// `n` tasks are in flight at the same time.
pub proof fn law_workers_run_side_by_side<T>(s: PoolState<T>, n: nat)
    requires
        s.inv(),
        n <= s.size(),
        s.receiver is None,
        s.pending.len() >= n,
        forall|w: int| 0 <= w < n ==> s.workers[w] == WorkerState::Idle,
    ensures
        s.receive_each(n).inv(),
        s.receive_each(n).receiver is None,
        s.receive_each(n).pending == s.pending.skip(n as int),
        s.receive_each(n).dispatched == s.dispatched + s.pending.take(n as int),
        s.receive_each(n).size() == s.size(),
        forall|w: int|
            0 <= w < n ==> s.receive_each(n).in_state(w, WorkerState::Running) && s.receive_each(
                n,
            ).holds(w, s.dispatched.len() + w),
        forall|t: int|
            s.dispatched.len() <= t < s.dispatched.len() + n ==> s.receive_each(n).in_flight(t),
        forall|w: int| n <= w < s.size() ==> s.receive_each(n).workers[w] == s.workers[w],
    decreases n,
{
    let after = s.receive_each(n);
    if n > 0 {
        let before = s.receive_each((n - 1) as nat);
        law_workers_run_side_by_side(s, (n - 1) as nat);
        assert(before.workers[n - 1] == s.workers[n - 1]);
        lemma_receive_inv(before, n - 1);
        assert(after.pending =~= s.pending.skip(n as int));
        assert(after.dispatched =~= s.dispatched + s.pending.take(n as int));
        assert forall|w: int| 0 <= w < n implies after.in_state(w, WorkerState::Running)
            && after.holds(w, s.dispatched.len() + w) by {
            if w < n - 1 {
                assert(before.in_state(w, WorkerState::Running));
            }
        }
        assert forall|t: int| s.dispatched.len() <= t < s.dispatched.len() + n implies after.in_flight(
            t,
        ) by {
            let w = t - s.dispatched.len();
            assert(after.in_state(w, WorkerState::Running));
        }
    }
}

} // verus!
