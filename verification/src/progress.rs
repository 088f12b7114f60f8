//! Destruction terminates: once the producer handle is gone, every step that
//! changes anything brings the pool closer to the state in which all workers
//! are joined, and such a step can always be taken.
use crate::accounting::law_destroyed_pool_ran_every_task_once;
use crate::model::{PoolState, Step};
use crate::safety::{lemma_init_inv, lemma_shutdown_inv, lemma_step_inv, lemma_submit_inv};
use crate::worker::WorkerState;
use vstd::prelude::*;

verus! {

/// The events that the workers still go through before all have exited, when
/// no task is left for them.
pub open spec fn steps_to_exit(workers: Seq<WorkerState>) -> nat
    decreases workers.len(),
{
    if workers.len() == 0 {
        0
    } else {
        steps_to_exit(workers.drop_last()) + workers.last().steps_to_exit()
    }
}

/// Changing the state of one worker changes the sum by that worker's part.
pub proof fn lemma_steps_to_exit_update(workers: Seq<WorkerState>, w: int, state: WorkerState)
    requires
        0 <= w < workers.len(),
    ensures
        steps_to_exit(workers.update(w, state)) + workers[w].steps_to_exit() == steps_to_exit(
            workers,
        ) + state.steps_to_exit(),
    decreases workers.len(),
{
    let changed = workers.update(w, state);
    if w == workers.len() - 1 {
        assert(changed.drop_last() =~= workers.drop_last());
    } else {
        assert(changed.drop_last() =~= workers.drop_last().update(w, state));
        lemma_steps_to_exit_update(workers.drop_last(), w, state);
    }
}

/// No worker is further than three events from its exit, and the sum is
/// zero exactly when the thread of every worker has ended.
pub proof fn lemma_steps_to_exit_bounds(workers: Seq<WorkerState>)
    ensures
        steps_to_exit(workers) <= 3 * workers.len(),
        steps_to_exit(workers) == 0 <==> forall|w: int|
            0 <= w < workers.len() ==> (#[trigger] workers[w]).terminated(),
    decreases workers.len(),
{
    if workers.len() > 0 {
        let rest = workers.drop_last();
        lemma_steps_to_exit_bounds(rest);
        if steps_to_exit(workers) == 0 {
            assert forall|w: int| 0 <= w < workers.len() implies (#[trigger] workers[w]).terminated(
            ) by {
                if w < rest.len() {
                    assert(rest[w] == workers[w]);
                }
            }
        }
        if forall|w: int| 0 <= w < workers.len() ==> (#[trigger] workers[w]).terminated() {
            assert forall|w: int| 0 <= w < rest.len() implies (#[trigger] rest[w]).terminated() by {
                assert(rest[w] == workers[w]);
            }
        }
    }
}

impl<T> PoolState<T> {
    /// How far the pool is from its destruction: two steps for each task
    /// that waits (it is received, and it completes), the events that lead
    /// each worker to its exit, and one join for each worker.
    pub open spec fn teardown_left(self) -> nat {
        (2 * self.pending.len() + steps_to_exit(self.workers) + (self.workers.len()
            - self.joined)) as nat
    }
}

/// When nothing is left to do the pool is destroyed; and a destroyed pool,
/// one of whose workers left in the regular way, has nothing left to do.
pub proof fn law_teardown_ends_at_zero<T>(s: PoolState<T>)
    requires
        s.inv(),
    ensures
        s.teardown_left() == 0 ==> s.destroyed(),
        s.destroyed() && (exists|w: int| s.in_state(w, WorkerState::Exited)) ==> s.teardown_left()
            == 0,
{
    lemma_steps_to_exit_bounds(s.workers);
}

/// The work that is left depends on the tasks that wait and on the number of
/// workers alone: once the last task has been taken, at most four steps for
/// each worker remain, however many tasks the pool has run.
pub proof fn law_teardown_is_bounded<T>(s: PoolState<T>)
    requires
        s.inv(),
    ensures
        s.teardown_left() <= 2 * s.pending.len() + 4 * s.size(),
{
    lemma_steps_to_exit_bounds(s.workers);
}

/// Once the producer handle is gone, a step either changes nothing (a
/// receive that waits for the right, a join that waits for its worker, a
/// second shutdown) or brings the destruction closer.
pub proof fn law_teardown_steps_count_down<T>(s: PoolState<T>, step: Step<T>)
    requires
        s.inv(),
        !s.sender,
        s.enabled(step),
    ensures
        s.apply(step) == s || s.apply(step).teardown_left() < s.teardown_left(),
{
    match step {
        Step::Submit(_) => {},
        Step::Start(w) => {
            lemma_steps_to_exit_update(s.workers, w, WorkerState::Idle);
        },
        Step::Receive(w) => {
            if s.right_open_to(w) {
                if s.pending.len() > 0 {
                    lemma_steps_to_exit_update(s.workers, w, WorkerState::Running);
                } else {
                    lemma_steps_to_exit_update(s.workers, w, WorkerState::Draining);
                }
            }
        },
        Step::Complete(w) => {
            lemma_steps_to_exit_update(s.workers, w, WorkerState::Idle);
        },
        Step::Abort(w) => {
            lemma_steps_to_exit_update(s.workers, w, WorkerState::Aborted);
        },
        Step::Stop(w) => {
            lemma_steps_to_exit_update(s.workers, w, WorkerState::Exited);
        },
        Step::Shutdown => {},
        Step::Join => {},
    }
}

/// No deadlock in destruction: once the producer handle is gone and until
/// every worker is joined, some step can be taken that changes the state.
/// The step that is returned is such a step.
pub proof fn law_teardown_can_go_on<T>(s: PoolState<T>) -> (step: Step<T>)
    requires
        s.inv(),
        !s.sender,
        !s.destroyed(),
    ensures
        s.enabled(step),
        !(step is Abort),
        s.apply(step) != s,
        s.apply(step).teardown_left() < s.teardown_left(),
{
    let step = if exists|w: int| 0 <= w < s.size() && !(#[trigger] s.workers[w]).terminated() {
        let w = choose|w: int| 0 <= w < s.size() && !(#[trigger] s.workers[w]).terminated();
        match s.workers[w] {
            WorkerState::Starting => Step::Start(w),
            WorkerState::Running => Step::Complete(w),
            WorkerState::Draining => Step::Stop(w),
            _ => match s.receiver {
                Some(holder) => Step::Receive(holder),
                None => Step::Receive(w),
            },
        }
    } else {
        Step::Join
    };
    law_teardown_steps_count_down(s, step);
    step
}

/// Taking `first` and then `rest` is taking the steps of `rest` from the
/// state that `first` leads to.
proof fn lemma_run_prepend<T>(s: PoolState<T>, first: Step<T>, rest: Seq<Step<T>>)
    ensures
        s.run(seq![first] + rest) == s.apply(first).run(rest),
        s.admits(seq![first] + rest) == (s.enabled(first) && s.apply(first).admits(rest)),
    decreases rest.len(),
{
    let all = seq![first] + rest;
    if rest.len() == 0 {
        assert(s.run(all.drop_last()) == s);
        assert(s.admits(all.drop_last()));
    } else {
        assert(all.drop_last() =~= seq![first] + rest.drop_last());
        lemma_run_prepend(s, first, rest.drop_last());
    }
}

/// Destruction terminates: once the producer handle is gone, the pool can be
/// brought to the state in which every worker is joined, in no more steps
/// than the measure says, without a further submission and without the loss
/// of a worker. The steps that are returned do so.
pub proof fn law_destruction_terminates<T>(s: PoolState<T>) -> (steps: Seq<Step<T>>)
    requires
        s.inv(),
        !s.sender,
    ensures
        s.admits(steps),
        s.run(steps).inv(),
        s.run(steps).destroyed(),
        steps.len() <= s.teardown_left(),
        s.run(steps).submitted == s.submitted,
        s.run(steps).size() == s.size(),
        forall|w: int|
            0 <= w < s.size() ==> (s.run(steps).workers[w] == WorkerState::Aborted) == (
            #[trigger] s.workers[w] == WorkerState::Aborted),
    decreases s.teardown_left(),
{
    if s.destroyed() {
        Seq::empty()
    } else {
        let first = law_teardown_can_go_on(s);
        let next = s.apply(first);
        lemma_step_inv(s, first);
        let rest = law_destruction_terminates(next);
        lemma_run_prepend(s, first, rest);
        assert forall|w: int| 0 <= w < s.size() implies (next.run(rest).workers[w]
            == WorkerState::Aborted) == (#[trigger] s.workers[w] == WorkerState::Aborted) by {
            assert((next.workers[w] == WorkerState::Aborted) == (s.workers[w]
                == WorkerState::Aborted));
        }
        seq![first] + rest
    }
}

/// Drain on destruction: from any state in which no task has torn a worker
/// down, the destruction of the pool can be completed, and when it is, the
/// queue is empty and every task that was submitted, however many more than
/// there are workers, has run to completion exactly once. The steps that are
/// returned are those that follow the shutdown.
pub proof fn law_destruction_drains_the_queue<T>(s: PoolState<T>) -> (steps: Seq<Step<T>>)
    requires
        s.inv(),
        forall|w: int| 0 <= w < s.size() ==> s.workers[w] != WorkerState::Aborted,
    ensures
        s.shutdown().admits(steps),
        s.shutdown().run(steps).destroyed(),
        s.shutdown().run(steps).submitted == s.submitted,
        s.shutdown().run(steps).pending.len() == 0,
        forall|t: int|
            0 <= t < s.submitted.len() ==> s.shutdown().run(steps).completions(t) == 1,
{
    let closed = s.shutdown();
    lemma_shutdown_inv(s);
    let steps = law_destruction_terminates(closed);
    let last = closed.run(steps);
    assert forall|w: int| 0 <= w < last.size() implies last.workers[w] != WorkerState::Aborted by {
        assert(closed.workers[w] != WorkerState::Aborted);
    }
    law_destroyed_pool_ran_every_task_once(last);
    steps
}

/// The steps by which a producer submits `tasks`, one after the other.
pub open spec fn submissions<T>(tasks: Seq<T>) -> Seq<Step<T>> {
    Seq::new(tasks.len(), |i: int| Step::Submit(tasks[i]))
}

/// A fresh pool takes any number of tasks: they all wait in the queue, in
/// the order of their submission, and no worker has moved.
pub proof fn lemma_fresh_pool_takes_every_task<T>(size: nat, tasks: Seq<T>)
    requires
        size >= 1,
    ensures
        PoolState::<T>::init(size).admits(submissions(tasks)),
        PoolState::<T>::init(size).run(submissions(tasks)).inv(),
        PoolState::<T>::init(size).run(submissions(tasks)) == (PoolState {
            pending: tasks,
            submitted: tasks,
            ..PoolState::<T>::init(size)
        }),
    decreases tasks.len(),
{
    let fresh = PoolState::<T>::init(size);
    let steps = submissions(tasks);
    if tasks.len() == 0 {
        lemma_init_inv::<T>(size);
        assert(fresh.pending =~= tasks);
    } else {
        let before = tasks.drop_last();
        lemma_fresh_pool_takes_every_task::<T>(size, before);
        assert(steps.drop_last() =~= submissions(before));
        lemma_submit_inv(fresh.run(submissions(before)), tasks.last());
        assert(before.push(tasks.last()) =~= tasks);
    }
}

/// Every workload is run, by every pool: when a pool of at least one worker
/// is given any number of tasks, be they many more than it has workers, and
/// is then destroyed, the destruction can be completed, and when it is, every
/// one of the tasks has run to completion exactly once. After the shutdown
/// this takes no more than two steps for each task and four for each worker.
/// The steps that are returned are those that follow the shutdown.
pub proof fn law_every_workload_is_run<T>(size: nat, tasks: Seq<T>) -> (steps: Seq<Step<T>>)
    requires
        size >= 1,
    ensures
        PoolState::<T>::init(size).admits(submissions(tasks)),
        PoolState::<T>::init(size).run(submissions(tasks)).shutdown().admits(steps),
        steps.len() <= 2 * tasks.len() + 4 * size,
        ({
            let last = PoolState::<T>::init(size).run(submissions(tasks)).shutdown().run(steps);
            &&& last.destroyed()
            &&& last.submitted == tasks
            &&& last.dispatched == tasks
            &&& last.pending.len() == 0
            &&& forall|t: int| 0 <= t < tasks.len() ==> last.completions(t) == 1
        }),
{
    let loaded = PoolState::<T>::init(size).run(submissions(tasks));
    lemma_fresh_pool_takes_every_task::<T>(size, tasks);
    lemma_shutdown_inv(loaded);
    law_teardown_is_bounded(loaded.shutdown());
    let steps = law_destruction_terminates(loaded.shutdown());
    let last = loaded.shutdown().run(steps);
    assert forall|w: int| 0 <= w < last.size() implies last.workers[w] != WorkerState::Aborted by {
        assert(loaded.shutdown().workers[w] != WorkerState::Aborted);
    }
    law_destroyed_pool_ran_every_task_once(last);
    steps
}

} // verus!
