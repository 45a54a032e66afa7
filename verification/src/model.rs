use crate::counting::{count_in_state, count_unjoined};
use crate::message::Message;
use crate::worker::{Worker, WorkerState};
use vstd::prelude::*;

verus! {

/// The pool as a mathematical value: what is queued, where each worker
/// stands, who holds the receive lock, and the history of every job that was
/// ever submitted.
pub struct PoolState<J> {
    /// One record per worker; position `i` holds worker `i`.
    pub workers: Seq<Worker>,
    /// The dispatch queue, oldest message first.
    pub queue: Seq<Message<J>>,
    /// Whether shutdown has begun.
    pub closing: bool,
    /// The worker that holds the receive lock, if any.
    pub holder: Option<int>,
    /// Every job ever submitted, in submission order.
    pub submitted: Seq<J>,
    /// For each job dequeued so far, in dequeue order, the worker that took it.
    pub dispatched: Seq<int>,
    /// For each worker, the index in `submitted` of the job it took last.
    pub current: Seq<int>,
    /// For each submitted job, how many times it has run to completion.
    pub runs: Seq<nat>,
}

/// One atomic change of the pool.
pub enum Step<J> {
    /// The owner submits a job.
    Submit(J),
    /// The owner begins shutdown.
    Close,
    /// A worker obtains the receive lock.
    Acquire(int),
    /// The worker holding the lock dequeues one message and releases the lock.
    Receive(int),
    /// A worker's job runs to completion.
    Finish(int),
    /// The owner joins a worker whose loop has ended.
    Join(int),
}

impl<J> PoolState<J> {
    /// A pool of `size` idle workers with an empty queue and no history.
    pub open spec fn init(size: nat) -> Self {
        PoolState {
            workers: Seq::new(
                size,
                |i: int| Worker { id: i as usize, state: WorkerState::Idle, joined: false },
            ),
            queue: Seq::empty(),
            closing: false,
            holder: None,
            submitted: Seq::empty(),
            dispatched: Seq::empty(),
            current: Seq::new(size, |i: int| 0int),
            runs: Seq::empty(),
        }
    }

    /// Number of workers.
    pub open spec fn size(self) -> nat {
        self.workers.len()
    }

    /// Whether `id` names a worker of this pool.
    pub open spec fn has_worker(self, id: int) -> bool {
        0 <= id < self.workers.len()
    }

    /// Number of jobs submitted but not dequeued yet.
    pub open spec fn pending(self) -> int {
        self.submitted.len() - self.dispatched.len()
    }

    /// Number of terminate signals still queued.
    pub open spec fn stops(self) -> int {
        self.queue.len() - self.pending()
    }

    /// Whether every worker has been joined.
    pub open spec fn all_joined(self) -> bool {
        forall|i: int| 0 <= i < self.workers.len() ==> (#[trigger] self.workers[i]).joined
    }

    /// The workers, with worker `id` moved to `state`.
    pub open spec fn with_worker_state(self, id: int, state: WorkerState) -> Seq<Worker> {
        self.workers.update(id, self.workers[id].moved_to(state))
    }

    /// A job may be submitted while the pool is open.
    pub open spec fn can_submit(self) -> bool {
        !self.closing
    }

    /// The job joins the back of the queue and the history.
    pub open spec fn submit(self, job: J) -> Self {
        PoolState {
            queue: self.queue.push(Message::NewJob(job)),
            submitted: self.submitted.push(job),
            runs: self.runs.push(0),
            ..self
        }
    }

    /// Shutdown may begin once.
    pub open spec fn can_close(self) -> bool {
        !self.closing
    }

    /// One terminate signal per worker joins the back of the queue.
    pub open spec fn close(self) -> Self {
        PoolState {
            queue: self.queue + Seq::new(self.workers.len(), |k: int| Message::Terminate),
            closing: true,
            ..self
        }
    }

    /// An idle worker may take the lock when nobody holds it.
    pub open spec fn can_acquire(self, id: int) -> bool {
        &&& self.has_worker(id)
        &&& self.workers[id].state == WorkerState::Idle
        &&& self.holder is None
    }

    /// Worker `id` holds the lock.
    pub open spec fn acquire(self, id: int) -> Self {
        PoolState {
            workers: self.with_worker_state(id, WorkerState::Locked),
            holder: Some(id),
            ..self
        }
    }

    /// The lock holder may dequeue when the queue is not empty.
    pub open spec fn can_receive(self, id: int) -> bool {
        &&& self.has_worker(id)
        &&& self.workers[id].state == WorkerState::Locked
        &&& self.queue.len() > 0
    }

    /// Worker `id` takes the oldest message and releases the lock. With a job
    /// it starts executing; with a terminate signal its loop ends.
    pub open spec fn receive(self, id: int) -> Self {
        let delivered = PoolState {
            workers: self.with_worker_state(id, Worker::state_after(self.queue[0])),
            queue: self.queue.skip(1),
            holder: None,
            ..self
        };
        match self.queue[0] {
            Message::NewJob(_) => PoolState {
                dispatched: self.dispatched.push(id),
                current: self.current.update(id, self.dispatched.len() as int),
                ..delivered
            },
            Message::Terminate => delivered,
        }
    }

    /// An executing worker may report its job done.
    pub open spec fn can_finish(self, id: int) -> bool {
        &&& self.has_worker(id)
        &&& self.workers[id].state == WorkerState::Executing
    }

    /// Worker `id` goes back to idle and its job counts one more run.
    pub open spec fn finish(self, id: int) -> Self {
        let job = self.current[id];
        PoolState {
            workers: self.with_worker_state(id, WorkerState::Idle),
            runs: self.runs.update(job, self.runs[job] + 1),
            ..self
        }
    }

    /// A terminated worker may be joined once.
    pub open spec fn can_join(self, id: int) -> bool {
        &&& self.has_worker(id)
        &&& self.workers[id].state == WorkerState::Terminated
        &&& !self.workers[id].joined
    }

    /// Worker `id` is marked as joined.
    pub open spec fn join(self, id: int) -> Self {
        PoolState {
            workers: self.workers.update(id, Worker { joined: true, ..self.workers[id] }),
            ..self
        }
    }

    /// Whether `step` can happen in this state.
    pub open spec fn enabled(self, step: Step<J>) -> bool {
        match step {
            Step::Submit(_) => self.can_submit(),
            Step::Close => self.can_close(),
            Step::Acquire(id) => self.can_acquire(id),
            Step::Receive(id) => self.can_receive(id),
            Step::Finish(id) => self.can_finish(id),
            Step::Join(id) => self.can_join(id),
        }
    }

    /// The state after `step`.
    pub open spec fn apply(self, step: Step<J>) -> Self {
        match step {
            Step::Submit(job) => self.submit(job),
            Step::Close => self.close(),
            Step::Acquire(id) => self.acquire(id),
            Step::Receive(id) => self.receive(id),
            Step::Finish(id) => self.finish(id),
            Step::Join(id) => self.join(id),
        }
    }

    /// Whether `steps` can happen one after another starting from this state.
    pub open spec fn admits(self, steps: Seq<Step<J>>) -> bool
        decreases steps.len(),
    {
        steps.len() > 0 ==> self.enabled(steps[0]) && self.apply(steps[0]).admits(steps.skip(1))
    }

    /// The state after all of `steps`, applied in order.
    pub open spec fn run(self, steps: Seq<Step<J>>) -> Self
        decreases steps.len(),
    {
        if steps.len() == 0 {
            self
        } else {
            self.apply(steps[0]).run(steps.skip(1))
        }
    }

    /// The work that is left, counted in steps: three per pending job
    /// (acquire, receive, finish), two per queued terminate signal (acquire,
    /// receive), one per running job and one join per unjoined worker, less
    /// the acquire that a lock holder has already made. Every worker step
    /// and every join lowers it by one, and during shutdown it is zero
    /// exactly when every worker has been joined.
    pub open spec fn remaining(self) -> int {
        3 * self.pending() + 2 * self.stops() + count_in_state(
            self.workers,
            WorkerState::Executing,
        ) + count_unjoined(self.workers) - if self.holder is Some {
            1int
        } else {
            0int
        }
    }
}

} // verus!
