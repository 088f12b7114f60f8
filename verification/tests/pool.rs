use std::cell::RefCell;
use std::rc::Rc;
use std::sync::atomic::AtomicUsize;
use std::sync::Arc;

use wadingpool::pool::{Dispatch, JoinStep};
use wadingpool::worker::WorkerState;
use wadingpool::{PoolSize, ThreadPool};

type Task = Box<dyn FnOnce()>;

fn pool_of<T>(workers: usize) -> ThreadPool<T> {
    ThreadPool::new(PoolSize::new(workers).unwrap())
}

/// Lets one worker do the next thing its loop does. Returns the number of
/// steps the worker took: none where it waits or its thread has ended, two
/// where it received a task and ran it.
fn turn(pool: &mut ThreadPool<Task>, worker: usize) -> usize {
    match pool.worker_state(worker) {
        WorkerState::Starting => {
            pool.start(worker);
            1
        }
        WorkerState::Idle => match pool.receive(worker) {
            Dispatch::Run(task) => {
                task();
                pool.complete(worker);
                2
            }
            Dispatch::Shutdown => 1,
            Dispatch::WaitForTask | Dispatch::WaitForRight => 0,
        },
        WorkerState::Running => {
            pool.complete(worker);
            1
        }
        WorkerState::Draining => {
            pool.stop(worker);
            1
        }
        WorkerState::Exited | WorkerState::Aborted => 0,
    }
}

/// Lets every worker take one turn. Returns the number of steps they took.
fn round(pool: &mut ThreadPool<Task>) -> usize {
    let mut steps = 0;
    for worker in 0..pool.size() {
        steps += turn(pool, worker);
    }
    steps
}

/// What the destructor does: gives the producer handle up, then joins the
/// workers, which go on with their loops while it waits. Returns the number
/// of steps that the workers took meanwhile.
fn destroy(pool: &mut ThreadPool<Task>) -> usize {
    let mut steps = 0;
    pool.shutdown();
    loop {
        match pool.join() {
            JoinStep::Done => return steps,
            JoinStep::Joined(_) => {}
            JoinStep::Aborted(worker) => panic!("worker {} was torn down by its task", worker),
            JoinStep::Pending(_) => {
                let taken = round(pool);
                assert!(taken > 0, "the workers are stuck");
                steps += taken;
            }
        }
    }
}

fn counting_task(counter: &Arc<AtomicUsize>) -> Task {
    let counter = counter.clone();
    Box::new(move || {
        counter.fetch_add(1, std::sync::atomic::Ordering::SeqCst);
    })
}

fn logging_task(log: &Rc<RefCell<Vec<usize>>>, index: usize) -> Task {
    let log = log.clone();
    Box::new(move || log.borrow_mut().push(index))
}

#[test]
fn it_accepts_more_tasks_than_threads() {
    let mut pool: ThreadPool<Task> = ThreadPool::new(PoolSize::new(4).unwrap());
    let counter = Arc::new(AtomicUsize::new(0));
    let total = 10;

    for _ in 0..total {
        pool.spawn(counting_task(&counter));
    }

    for _ in 0..5 {
        let value = counter.load(std::sync::atomic::Ordering::SeqCst);
        if value == total {
            return;
        }
        round(&mut pool);
    }

    panic!("Counter never reached expected value");
}

#[test]
fn pool_size_is_never_zero() {
    assert!(PoolSize::new(0).is_none());
    assert_eq!(PoolSize::new(1).unwrap().get(), 1);
    assert_eq!(PoolSize::new(4).unwrap().get(), 4);
    assert_eq!(PoolSize::new(usize::MAX).unwrap().get(), usize::MAX);
}

#[test]
fn new_pool_has_the_given_number_of_workers_and_none_has_started() {
    let pool: ThreadPool<Task> = pool_of(5);
    assert_eq!(pool.size(), 5);
    for worker in 0..5 {
        assert_eq!(pool.worker_state(worker), WorkerState::Starting);
    }
    assert_eq!(pool.queued(), 0);
    assert!(pool.is_accepting());
    assert_eq!(pool.receiver(), None);
    assert!(!pool.is_destroyed());
}

#[test]
fn pool_of_one_worker_is_the_smallest() {
    let mut pool: ThreadPool<Task> = pool_of(1);
    let counter = Arc::new(AtomicUsize::new(0));
    pool.spawn(counting_task(&counter));
    pool.spawn(counting_task(&counter));
    destroy(&mut pool);
    assert_eq!(pool.size(), 1);
    assert_eq!(counter.load(std::sync::atomic::Ordering::SeqCst), 2);
}

#[test]
fn counter_reads_ten_after_destruction() {
    let mut pool: ThreadPool<Task> = pool_of(4);
    let counter = Arc::new(AtomicUsize::new(0));
    for _ in 0..10 {
        pool.spawn(counting_task(&counter));
    }
    assert_eq!(pool.queued(), 10);
    destroy(&mut pool);
    assert_eq!(counter.load(std::sync::atomic::Ordering::SeqCst), 10);
    assert!(pool.is_destroyed());
}

#[test]
fn four_workers_run_four_tasks_at_the_same_time() {
    let mut pool: ThreadPool<u32> = pool_of(4);
    for task in [100, 101, 102, 103] {
        pool.spawn(task);
    }
    for worker in 0..4 {
        pool.start(worker);
    }
    for worker in 0..4 {
        assert!(matches!(pool.receive(worker), Dispatch::Run(_)));
        assert_eq!(pool.receiver(), None);
    }
    for worker in 0..4 {
        assert_eq!(pool.worker_state(worker), WorkerState::Running);
    }
    assert_eq!(pool.queued(), 0);
}

#[test]
fn drop_drains_every_queued_task() {
    let mut pool: ThreadPool<Task> = pool_of(2);
    let counter = Arc::new(AtomicUsize::new(0));
    for _ in 0..100 {
        pool.spawn(counting_task(&counter));
    }
    pool.shutdown();
    assert_eq!(pool.queued(), 100);
    loop {
        match pool.join() {
            JoinStep::Done => break,
            JoinStep::Joined(_) => {
                assert_eq!(counter.load(std::sync::atomic::Ordering::SeqCst), 100);
            }
            JoinStep::Pending(_) => {
                round(&mut pool);
            }
            JoinStep::Aborted(_) => unreachable!(),
        }
    }
    assert_eq!(counter.load(std::sync::atomic::Ordering::SeqCst), 100);
    assert_eq!(pool.queued(), 0);
    assert!(pool.is_destroyed());
}

#[test]
fn single_worker_runs_tasks_in_submission_order() {
    let mut pool: ThreadPool<Task> = pool_of(1);
    let log = Rc::new(RefCell::new(Vec::new()));
    for index in [0, 1, 2, 3, 4] {
        pool.spawn(logging_task(&log, index));
    }
    destroy(&mut pool);
    assert_eq!(*log.borrow(), vec![0, 1, 2, 3, 4]);
}

#[test]
fn pool_accepts_no_task_after_shutdown() {
    let mut pool: ThreadPool<Task> = pool_of(2);
    assert!(pool.is_accepting());
    pool.shutdown();
    assert!(!pool.is_accepting());
    pool.shutdown();
    assert!(!pool.is_accepting());
    destroy(&mut pool);
    assert!(!pool.is_accepting());
}

#[test]
fn pool_without_tasks_is_destroyed_in_three_steps_per_worker() {
    let mut pool: ThreadPool<Task> = pool_of(8);
    let steps = destroy(&mut pool);
    assert_eq!(steps, 24);
    assert!(pool.is_destroyed());
    for worker in 0..8 {
        assert_eq!(pool.worker_state(worker), WorkerState::Exited);
    }
    assert_eq!(pool.join(), JoinStep::Done);
}

#[test]
fn every_task_runs_exactly_once() {
    for size in [1, 2, 3, 8] {
        for tasks in [0, 1, 2, 5, 17] {
            let mut pool: ThreadPool<Task> = pool_of(size);
            let log = Rc::new(RefCell::new(Vec::new()));
            for index in 0..tasks {
                pool.spawn(logging_task(&log, index));
                if index % 3 == 0 {
                    round(&mut pool);
                }
            }
            destroy(&mut pool);
            let mut ran = log.borrow().clone();
            ran.sort();
            assert_eq!(ran, (0..tasks).collect::<Vec<usize>>());
        }
    }
}

#[test]
fn more_tasks_than_workers_are_all_drained() {
    for size in [1, 2, 4] {
        let tasks = 3 * size + 1;
        let mut pool: ThreadPool<Task> = pool_of(size);
        let counter = Arc::new(AtomicUsize::new(0));
        for _ in 0..tasks {
            pool.spawn(counting_task(&counter));
        }
        destroy(&mut pool);
        assert_eq!(counter.load(std::sync::atomic::Ordering::SeqCst), tasks);
        assert!(pool.is_destroyed());
        assert_eq!(pool.queued(), 0);
    }
}

#[test]
fn tasks_are_dispatched_in_submission_order_to_whichever_worker_asks() {
    let mut pool: ThreadPool<u32> = pool_of(3);
    for worker in 0..3 {
        pool.start(worker);
    }
    for task in [10, 20, 30, 40, 50] {
        pool.spawn(task);
    }
    assert!(matches!(pool.receive(2), Dispatch::Run(10)));
    assert!(matches!(pool.receive(0), Dispatch::Run(20)));
    pool.complete(2);
    assert!(matches!(pool.receive(2), Dispatch::Run(30)));
    assert!(matches!(pool.receive(1), Dispatch::Run(40)));
    pool.complete(0);
    pool.spawn(60);
    assert!(matches!(pool.receive(0), Dispatch::Run(50)));
    pool.complete(1);
    assert!(matches!(pool.receive(1), Dispatch::Run(60)));
    assert_eq!(pool.queued(), 0);
}

#[test]
fn destruction_after_the_last_task_takes_two_steps_per_started_worker() {
    let mut pool: ThreadPool<Task> = pool_of(4);
    let counter = Arc::new(AtomicUsize::new(0));
    for _ in 0..50 {
        pool.spawn(counting_task(&counter));
    }
    while counter.load(std::sync::atomic::Ordering::SeqCst) < 50 {
        round(&mut pool);
    }
    assert_eq!(pool.queued(), 0);
    let steps = destroy(&mut pool);
    assert_eq!(steps, 8);
}

#[test]
fn worker_that_waits_for_a_task_keeps_the_receive_right() {
    let mut pool: ThreadPool<u32> = pool_of(3);
    for worker in 0..3 {
        pool.start(worker);
    }
    assert!(matches!(pool.receive(1), Dispatch::WaitForTask));
    assert_eq!(pool.receiver(), Some(1));
    assert!(matches!(pool.receive(0), Dispatch::WaitForRight));
    assert!(matches!(pool.receive(2), Dispatch::WaitForRight));
    assert_eq!(pool.receiver(), Some(1));
    pool.spawn(5);
    assert!(matches!(pool.receive(0), Dispatch::WaitForRight));
    assert_eq!(pool.queued(), 1);
    assert!(matches!(pool.receive(1), Dispatch::Run(5)));
    assert_eq!(pool.receiver(), None);
    assert_eq!(pool.worker_state(1), WorkerState::Running);
    assert!(matches!(pool.receive(0), Dispatch::WaitForTask));
    assert_eq!(pool.receiver(), Some(0));
}

#[test]
fn worker_that_holds_the_right_sees_the_shutdown() {
    let mut pool: ThreadPool<u32> = pool_of(2);
    pool.start(0);
    pool.start(1);
    assert!(matches!(pool.receive(0), Dispatch::WaitForTask));
    pool.shutdown();
    assert!(matches!(pool.receive(1), Dispatch::WaitForRight));
    assert!(matches!(pool.receive(0), Dispatch::Shutdown));
    assert_eq!(pool.worker_state(0), WorkerState::Draining);
    assert_eq!(pool.receiver(), None);
    assert!(matches!(pool.receive(1), Dispatch::Shutdown));
    assert_eq!(pool.worker_state(1), WorkerState::Draining);
}

#[test]
fn no_worker_leaves_while_a_task_waits() {
    let mut pool: ThreadPool<u32> = pool_of(2);
    pool.start(0);
    pool.start(1);
    pool.spawn(1);
    pool.spawn(2);
    pool.shutdown();
    assert!(matches!(pool.receive(0), Dispatch::Run(1)));
    assert!(matches!(pool.receive(1), Dispatch::Run(2)));
    pool.complete(0);
    assert!(matches!(pool.receive(0), Dispatch::Shutdown));
    assert_eq!(pool.worker_state(1), WorkerState::Running);
    assert_eq!(pool.join(), JoinStep::Pending(1));
}

#[test]
fn join_goes_from_the_last_worker_to_the_first() {
    let mut pool: ThreadPool<u32> = pool_of(3);
    pool.shutdown();
    for worker in 0..3 {
        pool.start(worker);
        assert!(matches!(pool.receive(worker), Dispatch::Shutdown));
    }
    pool.stop(0);
    pool.stop(1);
    assert_eq!(pool.join(), JoinStep::Pending(2));
    assert_eq!(pool.join(), JoinStep::Pending(2));
    assert!(!pool.is_destroyed());
    pool.stop(2);
    assert_eq!(pool.join(), JoinStep::Joined(2));
    assert_eq!(pool.join(), JoinStep::Joined(1));
    assert!(!pool.is_destroyed());
    assert_eq!(pool.join(), JoinStep::Joined(0));
    assert!(pool.is_destroyed());
    assert_eq!(pool.join(), JoinStep::Done);
    assert_eq!(pool.join(), JoinStep::Done);
}

#[test]
fn task_that_aborts_leaves_the_other_workers_at_work() {
    let mut pool: ThreadPool<u32> = pool_of(2);
    pool.start(0);
    pool.start(1);
    for task in [1, 2, 3, 4] {
        pool.spawn(task);
    }
    assert!(matches!(pool.receive(1), Dispatch::Run(1)));
    pool.abort(1);
    assert_eq!(pool.worker_state(1), WorkerState::Aborted);
    assert_eq!(pool.receiver(), None);
    assert_eq!(pool.size(), 2);
    for task in [2, 3, 4] {
        match pool.receive(0) {
            Dispatch::Run(got) => assert_eq!(got, task),
            _ => panic!("worker 0 got no task"),
        }
        pool.complete(0);
    }
    pool.shutdown();
    assert_eq!(pool.join(), JoinStep::Aborted(1));
    assert_eq!(pool.join(), JoinStep::Pending(0));
    assert!(matches!(pool.receive(0), Dispatch::Shutdown));
    pool.stop(0);
    assert_eq!(pool.join(), JoinStep::Joined(0));
    assert_eq!(pool.join(), JoinStep::Done);
}

#[test]
fn ten_tasks_on_four_workers_take_three_rounds() {
    let mut pool: ThreadPool<Task> = pool_of(4);
    let counter = Arc::new(AtomicUsize::new(0));
    for _ in 0..10 {
        pool.spawn(counting_task(&counter));
    }
    assert_eq!(round(&mut pool), 4);
    let mut rounds = 0;
    while counter.load(std::sync::atomic::Ordering::SeqCst) < 10 {
        round(&mut pool);
        rounds += 1;
    }
    assert_eq!(rounds, 3);
}

#[test]
fn ten_tasks_on_one_worker_take_ten_rounds() {
    let mut pool: ThreadPool<Task> = pool_of(1);
    let counter = Arc::new(AtomicUsize::new(0));
    for _ in 0..10 {
        pool.spawn(counting_task(&counter));
    }
    assert_eq!(round(&mut pool), 1);
    let mut rounds = 0;
    while counter.load(std::sync::atomic::Ordering::SeqCst) < 10 {
        round(&mut pool);
        rounds += 1;
    }
    assert_eq!(rounds, 10);
}

/// A small generator of numbers that look random and are the same in every
/// run.
struct Dice(u64);

impl Dice {
    fn roll(&mut self, sides: usize) -> usize {
        self.0 = self
            .0
            .wrapping_mul(6364136223846793005)
            .wrapping_add(1442695040888963407);
        ((self.0 >> 33) % sides as u64) as usize
    }
}

#[test]
fn any_interleaving_runs_every_task_once_and_dispatches_in_order() {
    for seed in 0..200 {
        let mut dice = Dice(seed);
        let size = 1 + dice.roll(5);
        let tasks = dice.roll(40);
        let mut pool: ThreadPool<usize> = pool_of(size);
        let mut submitted = 0;
        let mut dispatched = Vec::new();
        let mut running: Vec<Option<usize>> = vec![None; size];
        let mut completions = vec![0; tasks];

        while !pool.is_destroyed() {
            let choice = dice.roll(size + 2);
            if choice == size {
                if pool.is_accepting() && submitted < tasks {
                    pool.spawn(submitted);
                    submitted += 1;
                }
            } else if choice == size + 1 {
                if submitted == tasks {
                    pool.shutdown();
                    pool.join();
                }
            } else {
                let worker = choice;
                match pool.worker_state(worker) {
                    WorkerState::Starting => pool.start(worker),
                    WorkerState::Idle => match pool.receive(worker) {
                        Dispatch::Run(task) => {
                            assert_eq!(pool.receiver(), None);
                            dispatched.push(task);
                            running[worker] = Some(task);
                        }
                        Dispatch::WaitForTask => {
                            assert_eq!(pool.receiver(), Some(worker));
                            assert_eq!(pool.queued(), 0);
                            assert!(pool.is_accepting());
                        }
                        Dispatch::WaitForRight => {
                            assert!(pool.receiver().is_some());
                            assert_ne!(pool.receiver(), Some(worker));
                        }
                        Dispatch::Shutdown => {
                            assert_eq!(pool.queued(), 0);
                            assert!(!pool.is_accepting());
                        }
                    },
                    WorkerState::Running => {
                        let task = running[worker].take().unwrap();
                        completions[task] += 1;
                        pool.complete(worker);
                    }
                    WorkerState::Draining => pool.stop(worker),
                    WorkerState::Exited => {}
                    WorkerState::Aborted => unreachable!(),
                }
            }
            assert_eq!(pool.size(), size);
            assert_eq!(pool.queued() + dispatched.len(), submitted);
        }

        assert_eq!(submitted, tasks);
        assert_eq!(dispatched, (0..tasks).collect::<Vec<usize>>());
        assert_eq!(completions, vec![1; tasks]);
        for worker in 0..size {
            assert_eq!(pool.worker_state(worker), WorkerState::Exited);
        }
    }
}
