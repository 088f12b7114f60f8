//! The pool: a fixed set of workers behind one shared queue.
use crate::model::PoolState;
use crate::queue::{Received, TaskQueue};
use crate::safety::{
    lemma_abort_inv, lemma_complete_inv, lemma_init_inv, lemma_join_inv, lemma_receive_inv,
    lemma_shutdown_inv, lemma_start_inv, lemma_stop_inv, lemma_submit_inv,
};
use crate::worker::{WorkerEvent, WorkerState};
use vstd::prelude::*;

verus! {

/// The size of a pool: a number of workers that is not zero.
#[derive(Clone, Copy, Debug)]
pub struct PoolSize {
    workers: usize,
}

impl View for PoolSize {
    type V = nat;

    closed spec fn view(&self) -> nat {
        self.workers as nat
    }
}

impl PoolSize {
    #[verifier::type_invariant]
    spec fn positive(self) -> bool {
        self.workers >= 1
    }

    /// The size of a pool of `workers` workers, if `workers` is not zero.
    pub fn new(workers: usize) -> (size: Option<PoolSize>)
        ensures
            size is None <==> workers == 0,
            size matches Some(size) ==> size@ == workers,
    {
        if workers == 0 {
            None
        } else {
            Some(PoolSize { workers })
        }
    }

    /// The number of workers, which is at least one.
    pub fn get(self) -> (workers: usize)
        ensures
            workers == self@,
            workers >= 1,
    {
        proof {
            use_type_invariant(&self);
        }
        self.workers
    }
}

/// What a worker does after an attempt to receive.
#[derive(Debug)]
pub enum Dispatch<T> {
    /// Execute the task that is handed out. The receive right is free again.
    Run(T),
    /// The worker holds the receive right and the queue is empty: wait until
    /// a task is submitted or the queue is closed, then try again.
    WaitForTask,
    /// Another worker holds the receive right: wait until it is given up,
    /// then try again.
    WaitForRight,
    /// The queue is closed and empty: leave the loop.
    Shutdown,
}

/// What the destructor does after an attempt to join.
#[derive(Clone, Copy, PartialEq, Eq, Structural, Debug)]
pub enum JoinStep {
    /// This worker had left its loop and is joined now.
    Joined(usize),
    /// This worker was torn down by a task and is joined now: the failure
    /// is to be passed on.
    Aborted(usize),
    /// This worker is next, and its thread has not ended yet: wait for it.
    Pending(usize),
    /// Every worker is joined.
    Done,
}

/// A pool of a fixed number of workers that share one queue of tasks.
///
/// The pool decides; it does not run anything. Whoever drives it performs
/// what the pool hands back: runs the task, parks the worker, joins it.
pub struct ThreadPool<T> {
    workers: Vec<WorkerState>,
    queue: TaskQueue<T>,
    receiver: Option<usize>,
    joined: usize,
    submitted: Ghost<Seq<T>>,
    dispatched: Ghost<Seq<T>>,
    taken: Ghost<Map<int, int>>,
    finished: Ghost<Seq<int>>,
}

impl<T> View for ThreadPool<T> {
    type V = PoolState<T>;

    closed spec fn view(&self) -> PoolState<T> {
        PoolState {
            workers: self.workers@,
            pending: self.queue@.pending,
            sender: !self.queue@.closed(),
            receiver: match self.receiver {
                Some(h) => Some(h as int),
                None => None,
            },
            joined: self.joined as nat,
            submitted: self.submitted@,
            dispatched: self.dispatched@,
            taken: self.taken@,
            finished: self.finished@,
        }
    }
}

impl<T> ThreadPool<T> {
    /// The pool is well formed: it holds at most the one producer handle it
    /// was created with, and its state satisfies the invariant.
    pub closed spec fn wf(&self) -> bool {
        &&& self.queue@.producers <= 1
        &&& self@.inv()
    }

    /// A well-formed pool satisfies the invariant of the model.
    pub proof fn lemma_wf_inv(&self)
        requires
            self.wf(),
        ensures
            self@.inv(),
    {
    }

    /// Creates a pool of `size` workers, none of which has started, with an
    /// empty queue and the only producer handle.
    pub fn new(size: PoolSize) -> (pool: Self)
        ensures
            pool.wf(),
            pool@ == PoolState::<T>::init(size@),
            pool@.size() >= 1,
    {
        let size: usize = size.get();
        let mut workers: Vec<WorkerState> = Vec::new();
        let mut spawned: usize = 0;
        while spawned < size
            invariant
                spawned <= size,
                workers@.len() == spawned,
                forall|w: int| 0 <= w < spawned ==> workers@[w] == WorkerState::Starting,
            decreases size - spawned,
        {
            workers.push(WorkerState::Starting);
            spawned = spawned + 1;
        }
        let pool = ThreadPool {
            workers,
            queue: TaskQueue::new(),
            receiver: None,
            joined: 0,
            submitted: Ghost(Seq::empty()),
            dispatched: Ghost(Seq::empty()),
            taken: Ghost(Map::empty()),
            finished: Ghost(Seq::empty()),
        };
        proof {
            lemma_init_inv::<T>(size as nat);
            assert(pool@.workers =~= PoolState::<T>::init(size as nat).workers);
        }
        pool
    }

    /// Submits a task: it goes to the tail of the queue.
    ///
    /// The pool must still hold its producer handle: to submit after
    /// `shutdown` is a programming error.
    pub fn spawn(&mut self, task: T)
        requires
            old(self).wf(),
            old(self)@.sender,
        ensures
            final(self).wf(),
            final(self)@ == old(self)@.submit(task),
    {
        let ghost submitted = task;
        self.queue.enqueue(task);
        self.submitted = Ghost(self.submitted@.push(submitted));
        proof {
            lemma_submit_inv(old(self)@, submitted);
        }
    }

    /// Moves worker `worker` on by `event`.
    fn advance(&mut self, worker: usize, event: WorkerEvent)
        requires
            worker < old(self).workers@.len(),
            old(self).workers@[worker as int].after(event) is Some,
        ensures
            final(self).workers@ == old(self).workers@.update(
                worker as int,
                old(self).workers@[worker as int].after(event)->0,
            ),
            final(self).queue == old(self).queue,
            final(self).receiver == old(self).receiver,
            final(self).joined == old(self).joined,
            final(self).submitted == old(self).submitted,
            final(self).dispatched == old(self).dispatched,
            final(self).taken == old(self).taken,
            final(self).finished == old(self).finished,
    {
        if let Some(next) = self.workers[worker].on(event) {
            self.workers.set(worker, next);
        }
    }

    /// Worker `worker` enters its dispatch loop.
    pub fn start(&mut self, worker: usize)
        requires
            old(self).wf(),
            old(self)@.in_state(worker as int, WorkerState::Starting),
        ensures
            final(self).wf(),
            final(self)@ == old(self)@.start(worker as int),
    {
        self.advance(worker, WorkerEvent::Started);
        proof {
            lemma_start_inv(old(self)@, worker as int);
        }
    }

    /// Worker `worker` tries to receive a task.
    ///
    /// A task is handed out only with the receive right, oldest first, and
    /// the right is given up before the task is returned for execution.
    pub fn receive(&mut self, worker: usize) -> (outcome: Dispatch<T>)
        requires
            old(self).wf(),
            old(self)@.in_state(worker as int, WorkerState::Idle),
        ensures
            final(self).wf(),
            final(self)@ == old(self)@.receive(worker as int),
            match outcome {
                Dispatch::Run(task) => {
                    &&& old(self)@.right_open_to(worker as int)
                    &&& old(self)@.pending.len() > 0
                    &&& task == old(self)@.pending[0]
                },
                Dispatch::WaitForTask => {
                    &&& old(self)@.right_open_to(worker as int)
                    &&& old(self)@.pending.len() == 0
                    &&& old(self)@.sender
                },
                Dispatch::WaitForRight => !old(self)@.right_open_to(worker as int),
                Dispatch::Shutdown => {
                    &&& old(self)@.right_open_to(worker as int)
                    &&& old(self)@.pending.len() == 0
                    &&& !old(self)@.sender
                },
            },
    {
        proof {
            lemma_receive_inv(old(self)@, worker as int);
        }
        let open = match self.receiver {
            Some(holder) => holder == worker,
            None => true,
        };
        if !open {
            return Dispatch::WaitForRight;
        }
        match self.queue.dequeue() {
            Received::Task(task) => {
                self.advance(worker, WorkerEvent::TaskReceived);
                self.receiver = None;
                self.taken = Ghost(self.taken@.insert(worker as int, self.dispatched@.len() as int));
                self.dispatched = Ghost(self.dispatched@.push(task));
                Dispatch::Run(task)
            },
            Received::Empty => {
                self.receiver = Some(worker);
                Dispatch::WaitForTask
            },
            Received::Closed => {
                self.advance(worker, WorkerEvent::QueueClosed);
                self.receiver = None;
                Dispatch::Shutdown
            },
        }
    }

    /// The task that worker `worker` executes has returned.
    pub fn complete(&mut self, worker: usize)
        requires
            old(self).wf(),
            old(self)@.in_state(worker as int, WorkerState::Running),
        ensures
            final(self).wf(),
            final(self)@ == old(self)@.complete(worker as int),
    {
        self.advance(worker, WorkerEvent::TaskCompleted);
        self.finished = Ghost(self.finished@.push(self.taken@[worker as int]));
        self.taken = Ghost(self.taken@.remove(worker as int));
        proof {
            lemma_complete_inv(old(self)@, worker as int);
        }
    }

    /// The task that worker `worker` executes has aborted the thread of the
    /// worker. The worker takes no further part; the others go on.
    pub fn abort(&mut self, worker: usize)
        requires
            old(self).wf(),
            old(self)@.in_state(worker as int, WorkerState::Running),
        ensures
            final(self).wf(),
            final(self)@ == old(self)@.abort(worker as int),
    {
        self.advance(worker, WorkerEvent::TaskAborted);
        proof {
            lemma_abort_inv(old(self)@, worker as int);
        }
    }

    /// Worker `worker`, which saw the closed queue, leaves its loop.
    pub fn stop(&mut self, worker: usize)
        requires
            old(self).wf(),
            old(self)@.in_state(worker as int, WorkerState::Draining),
        ensures
            final(self).wf(),
            final(self)@ == old(self)@.stop(worker as int),
    {
        self.advance(worker, WorkerEvent::Stopped);
        proof {
            lemma_stop_inv(old(self)@, worker as int);
        }
    }

    /// The first half of destruction: the pool gives up its producer handle,
    /// so that the workers see the queue closed once it is empty. Does
    /// nothing when the handle is gone already.
    pub fn shutdown(&mut self)
        requires
            old(self).wf(),
        ensures
            final(self).wf(),
            final(self)@ == old(self)@.shutdown(),
    {
        self.queue.release_producer();
        proof {
            lemma_shutdown_inv(old(self)@);
        }
    }

    /// The second half of destruction, one worker at a time, from the last
    /// to the first: joins the next worker if its thread has ended, and says
    /// how it ended.
    ///
    /// The producer handle must be gone: a worker leaves only a closed
    /// queue, so a join before the shutdown would wait for ever.
    pub fn join(&mut self) -> (step: JoinStep)
        requires
            old(self).wf(),
            !old(self)@.sender,
        ensures
            final(self).wf(),
            final(self)@ == old(self)@.join(),
            match step {
                JoinStep::Joined(worker) => old(self)@.in_state(worker as int, WorkerState::Exited)
                    && !old(self)@.destroyed() && worker == old(self)@.join_target(),
                JoinStep::Aborted(worker) => old(self)@.in_state(
                    worker as int,
                    WorkerState::Aborted,
                ) && !old(self)@.destroyed() && worker == old(self)@.join_target(),
                JoinStep::Pending(worker) => !old(self)@.destroyed() && !old(self)@.can_join()
                    && worker == old(self)@.join_target(),
                JoinStep::Done => old(self)@.destroyed(),
            },
    {
        proof {
            lemma_join_inv(old(self)@);
        }
        let size: usize = self.workers.len();
        if self.joined >= size {
            return JoinStep::Done;
        }
        let target: usize = size - self.joined - 1;
        match self.workers[target] {
            WorkerState::Exited => {
                self.joined = self.joined + 1;
                JoinStep::Joined(target)
            },
            WorkerState::Aborted => {
                self.joined = self.joined + 1;
                JoinStep::Aborted(target)
            },
            _ => JoinStep::Pending(target),
        }
    }

    /// The number of workers.
    pub fn size(&self) -> (n: usize)
        ensures
            n == self@.size(),
    {
        self.workers.len()
    }

    /// The state of worker `worker`.
    pub fn worker_state(&self, worker: usize) -> (state: WorkerState)
        requires
            worker < self@.size(),
        ensures
            state == self@.workers[worker as int],
    {
        self.workers[worker]
    }

    /// The number of tasks that wait in the queue.
    pub fn queued(&self) -> (n: usize)
        ensures
            n == self@.pending.len(),
    {
        self.queue.len()
    }

    /// Whether the pool still holds its producer handle, so that tasks can
    /// be submitted.
    pub fn is_accepting(&self) -> (accepting: bool)
        ensures
            accepting == self@.sender,
    {
        !self.queue.is_closed()
    }

    /// The worker that holds the receive right, if any does.
    pub fn receiver(&self) -> (holder: Option<usize>)
        ensures
            match holder {
                Some(worker) => self@.receiver == Some(worker as int),
                None => self@.receiver is None,
            },
    {
        self.receiver
    }

    /// Whether every worker has been joined.
    pub fn is_destroyed(&self) -> (destroyed: bool)
        ensures
            destroyed == self@.destroyed(),
    {
        self.joined == self.workers.len()
    }
}

} // verus!
