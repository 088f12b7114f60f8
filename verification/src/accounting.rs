//! Exactly once: what became of every task that was submitted.
use crate::model::{PoolState, Step};
use crate::safety::{law_reachable_states_are_safe, law_size_is_fixed};
use crate::worker::WorkerState;
use vstd::prelude::*;
use vstd::set_lib::{lemma_int_range, set_int_range};

verus! {

/// What became of every task, at any time: a ticket that was dispatched is
/// in exactly one of three places. It is in flight, with one worker; or it
/// has completed, once; or it was lost with the worker it tore down. A
/// ticket that was not dispatched is in none of them.
pub proof fn law_every_ticket_is_in_one_place<T>(s: PoolState<T>, t: int)
    requires
        s.inv(),
    ensures
        s.completions(t) <= 1,
        0 <= t < s.dispatched.len() ==> (s.completions(t) == 1 || s.in_flight(t) || s.lost(t)),
        s.completions(t) == 1 ==> 0 <= t < s.dispatched.len() && !s.in_flight(t) && !s.lost(t),
        s.in_flight(t) ==> 0 <= t < s.dispatched.len() && !s.lost(t),
        s.lost(t) ==> 0 <= t < s.dispatched.len(),
        forall|w1: int, w2: int| s.holds(w1, t) && s.holds(w2, t) ==> w1 == w2,
{
    broadcast use vstd::seq_lib::group_to_multiset_ensures;

    s.finished.lemma_multiset_has_no_duplicates();
}

/// When the destructor has joined every worker, no task is in flight, and
/// every task that was dispatched has either run to completion exactly once
/// or torn down the worker that executed it. If one worker at least left in
/// the regular way, nothing waits in the queue either: every task that was
/// submitted has been dispatched.
pub proof fn law_destroyed_pool_accounts_for_every_task<T>(s: PoolState<T>)
    requires
        s.inv(),
        s.destroyed(),
    ensures
        forall|w: int| 0 <= w < s.size() ==> s.workers[w].terminated(),
        forall|t: int| !s.in_flight(t),
        forall|t: int|
            0 <= t < s.dispatched.len() ==> (s.completions(t) == 1) != #[trigger] s.lost(t),
        (exists|w: int| s.in_state(w, WorkerState::Exited)) ==> s.pending.len() == 0
            && s.dispatched == s.submitted,
{
    assert forall|t: int| 0 <= t < s.dispatched.len() implies (s.completions(t) == 1)
        != #[trigger] s.lost(t) by {
        law_every_ticket_is_in_one_place(s, t);
    }
}

/// Exactly once: when the destructor has joined every worker and no task has
/// torn a worker down, the queue is empty and every task that was ever
/// submitted has run to completion one time, no more and no less.
pub proof fn law_destroyed_pool_ran_every_task_once<T>(s: PoolState<T>)
    requires
        s.inv(),
        s.destroyed(),
        forall|w: int| 0 <= w < s.size() ==> s.workers[w] != WorkerState::Aborted,
    ensures
        s.pending.len() == 0,
        s.dispatched == s.submitted,
        s.finished.len() == s.submitted.len(),
        forall|t: int| 0 <= t < s.submitted.len() ==> s.completions(t) == 1,
        forall|t: int| !(0 <= t < s.submitted.len()) ==> s.completions(t) == 0,
{
    law_destroyed_pool_accounts_for_every_task(s);
    assert(s.workers[0].terminated());
    assert forall|t: int| s.completions(t) == (if 0 <= t < s.submitted.len() {
        1nat
    } else {
        0nat
    }) by {
        law_every_ticket_is_in_one_place(s, t);
    }
    assert(s.finished.len() == s.submitted.len()) by {
        broadcast use vstd::seq_lib::group_to_multiset_ensures;

        assert(s.finished.to_set() =~= set_int_range(0, s.submitted.len() as int));
        s.finished.unique_seq_to_set();
        lemma_int_range(0, s.submitted.len() as int);
    }
}

/// Exactly once, for every pool and every workload: whatever steps lead a
/// fresh pool of at least one worker to its destruction, if no task tore a
/// worker down on the way, every task that was submitted has run to
/// completion exactly once.
pub proof fn law_every_run_to_destruction_runs_every_task_once<T>(size: nat, steps: Seq<Step<T>>)
    requires
        size >= 1,
        PoolState::<T>::init(size).admits(steps),
        PoolState::<T>::init(size).run(steps).destroyed(),
        forall|i: int| 0 <= i < steps.len() ==> !(#[trigger] steps[i] is Abort),
    ensures
        ({
            let last = PoolState::<T>::init(size).run(steps);
            &&& last.pending.len() == 0
            &&& last.dispatched == last.submitted
            &&& forall|t: int| 0 <= t < last.submitted.len() ==> last.completions(t) == 1
        }),
{
    let last = PoolState::<T>::init(size).run(steps);
    law_reachable_states_are_safe::<T>(size, steps);
    lemma_no_abort_without_abort_step::<T>(size, steps);
    law_size_is_fixed::<T>(size, steps);
    law_destroyed_pool_ran_every_task_once(last);
}

/// A worker is torn down by an abort only.
proof fn lemma_no_abort_without_abort_step<T>(size: nat, steps: Seq<Step<T>>)
    requires
        PoolState::<T>::init(size).admits(steps),
        forall|i: int| 0 <= i < steps.len() ==> !(#[trigger] steps[i] is Abort),
    ensures
        PoolState::<T>::init(size).run(steps).size() == size,
        forall|w: int|
            0 <= w < size ==> PoolState::<T>::init(size).run(steps).workers[w]
                != WorkerState::Aborted,
    decreases steps.len(),
{
    if steps.len() > 0 {
        lemma_no_abort_without_abort_step::<T>(size, steps.drop_last());
    }
}

} // verus!
