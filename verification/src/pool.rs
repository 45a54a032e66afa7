use crate::channel::Channel;
use crate::message::Message;
use crate::model::PoolState;
use crate::validity::{
    lemma_acquire_inv, lemma_close_inv, lemma_finish_inv, lemma_init_inv, lemma_join_inv,
    lemma_receive_inv, lemma_submit_inv,
};
use crate::worker::{Worker, WorkerState};
use vstd::prelude::*;

verus! {

/// A fixed set of workers fed from one FIFO queue.
///
/// The pool keeps the queue, the workers' records and the receive lock. It
/// never runs a job itself: `receive` hands the job to the caller, who runs it
/// and reports back with `finish`. As ghost data it also keeps the history
/// of every job: when it was submitted, which worker took it and whether it
/// has run, so that the contracts can speak of it.
pub struct ThreadPool<J> {
    workers: Vec<Worker>,
    channel: Channel<J>,
    closing: bool,
    submitted: Ghost<Seq<J>>,
    dispatched: Ghost<Seq<int>>,
    current: Ghost<Seq<int>>,
    runs: Ghost<Seq<nat>>,
}

impl<J> View for ThreadPool<J> {
    type V = PoolState<J>;

    closed spec fn view(&self) -> PoolState<J> {
        PoolState {
            workers: self.workers@,
            queue: self.channel@.queue,
            closing: self.closing,
            holder: self.channel@.holder,
            submitted: self.submitted@,
            dispatched: self.dispatched@,
            current: self.current@,
            runs: self.runs@,
        }
    }
}

impl<J> ThreadPool<J> {
    /// Create a pool of `size` workers, all idle, with an empty queue.
    pub fn new(size: usize) -> (pool: ThreadPool<J>)
        requires
            size > 0,
        ensures
            pool@ == PoolState::<J>::init(size as nat),
            pool@.inv(),
    {
        let mut workers: Vec<Worker> = Vec::with_capacity(size);
        let mut i: usize = 0;
        while i < size
            invariant
                i <= size,
                workers@.len() == i,
                forall|k: int|
                    0 <= k < i ==> workers@[k] == (Worker {
                        id: k as usize,
                        state: WorkerState::Idle,
                        joined: false,
                    }),
            decreases size - i,
        {
            workers.push(Worker::new(i));
            i += 1;
        }
        let pool = ThreadPool {
            workers,
            channel: Channel::new(),
            closing: false,
            submitted: Ghost(Seq::empty()),
            dispatched: Ghost(Seq::empty()),
            current: Ghost(Seq::new(size as nat, |i: int| 0int)),
            runs: Ghost(Seq::empty()),
        };
        proof {
            lemma_init_inv::<J>(size);
            assert(pool@.workers =~= PoolState::<J>::init(size as nat).workers);
        }
        pool
    }

    /// Queue `job` behind everything submitted before it.
    pub fn execute(&mut self, job: J)
        requires
            old(self)@.inv(),
            old(self)@.can_submit(),
        ensures
            final(self)@ == old(self)@.submit(job),
            final(self)@.inv(),
    {
        proof {
            lemma_submit_inv(self@, job);
        }
        self.submitted = Ghost(self.submitted@.push(job));
        self.runs = Ghost(self.runs@.push(0));
        self.channel.send(Message::NewJob(job));
    }

    /// Begin shutdown: queue one terminate signal per worker, behind every
    /// job already submitted. Returns whether this call began the shutdown;
    /// once it has begun, calling again changes nothing.
    pub fn shutdown(&mut self) -> (began: bool)
        requires
            old(self)@.inv(),
        ensures
            began == old(self)@.can_close(),
            final(self)@ == if began {
                old(self)@.close()
            } else {
                old(self)@
            },
            final(self)@.inv(),
    {
        if self.closing {
            return false;
        }
        let ghost before = self@;
        let n = self.workers.len();
        let mut i: usize = 0;
        while i < n
            invariant
                i <= n,
                n == before.workers.len(),
                self@ == (PoolState {
                    queue: before.queue + Seq::new(i as nat, |k: int| Message::<J>::Terminate),
                    ..before
                }),
            decreases n - i,
        {
            self.channel.send(Message::Terminate);
            i += 1;
            assert(self@.queue =~= before.queue + Seq::new(
                i as nat,
                |k: int| Message::<J>::Terminate,
            ));
        }
        self.closing = true;
        proof {
            lemma_close_inv(before);
            assert(self@.queue =~= before.close().queue);
        }
        true
    }

    /// Worker `id` asks for the receive lock. It gets it, and the result is
    /// `true`, when it is idle and nobody holds the lock; otherwise nothing
    /// changes.
    pub fn acquire(&mut self, id: usize) -> (ok: bool)
        requires
            old(self)@.inv(),
        ensures
            ok == old(self)@.can_acquire(id as int),
            final(self)@ == if ok {
                old(self)@.acquire(id as int)
            } else {
                old(self)@
            },
            final(self)@.inv(),
    {
        if id >= self.workers.len() {
            return false;
        }
        if self.workers[id].state != WorkerState::Idle {
            return false;
        }
        let ghost before = self@;
        if !self.channel.lock(id) {
            return false;
        }
        proof {
            lemma_acquire_inv(before, id as int);
        }
        self.workers[id].lock_granted()
    }

    /// Worker `id`, holding the lock, takes the oldest message and releases
    /// the lock. With `NewJob` the worker is now executing and the caller
    /// runs the job, which is the oldest submitted job that no worker has
    /// taken yet; with `Terminate`, which comes only when no job is pending,
    /// the worker's loop has ended. The result is `None`, and nothing
    /// changes, when the worker does not hold the lock or the queue is empty.
    pub fn receive(&mut self, id: usize) -> (msg: Option<Message<J>>)
        requires
            old(self)@.inv(),
        ensures
            (msg is Some) == old(self)@.can_receive(id as int),
            msg matches Some(m) ==> m == old(self)@.queue[0],
            msg matches Some(Message::NewJob(job)) ==> {
                &&& old(self)@.pending() > 0
                &&& job == old(self)@.submitted[old(self)@.dispatched.len() as int]
            },
            msg matches Some(Message::Terminate) ==> old(self)@.pending() == 0,
            final(self)@ == if msg is Some {
                old(self)@.receive(id as int)
            } else {
                old(self)@
            },
            final(self)@.inv(),
    {
        if id >= self.workers.len() {
            return None;
        }
        if self.workers[id].state != WorkerState::Locked {
            return None;
        }
        let ghost before = self@;
        proof {
            assert(before.worker_ok(id as int));
        }
        match self.channel.recv(id) {
            None => None,
            Some(m) => {
                proof {
                    lemma_receive_inv(before, id as int);
                    assert(before.slot_ok(0));
                }
                self.workers[id].deliver(&m);
                if m.is_job() {
                    self.current = Ghost(before.receive(id as int).current);
                    self.dispatched = Ghost(before.receive(id as int).dispatched);
                }
                Some(m)
            },
        }
    }

    /// Worker `id` reports that the job it took has run to completion. The
    /// worker goes back to idle and the result is `true` when it was
    /// executing; otherwise nothing changes.
    pub fn finish(&mut self, id: usize) -> (ok: bool)
        requires
            old(self)@.inv(),
        ensures
            ok == old(self)@.can_finish(id as int),
            final(self)@ == if ok {
                old(self)@.finish(id as int)
            } else {
                old(self)@
            },
            final(self)@.inv(),
    {
        if id >= self.workers.len() {
            return false;
        }
        if self.workers[id].state != WorkerState::Executing {
            return false;
        }
        let ghost before = self@;
        proof {
            lemma_finish_inv(before, id as int);
        }
        self.runs = Ghost(before.finish(id as int).runs);
        self.workers[id].job_done()
    }

    /// The owner records that worker `id` has been joined. This succeeds, and
    /// the result is `true`, once for each worker, and only after its loop
    /// has ended; otherwise nothing changes.
    pub fn join(&mut self, id: usize) -> (ok: bool)
        requires
            old(self)@.inv(),
        ensures
            ok == old(self)@.can_join(id as int),
            final(self)@ == if ok {
                old(self)@.join(id as int)
            } else {
                old(self)@
            },
            final(self)@.inv(),
    {
        if id >= self.workers.len() {
            return false;
        }
        let ghost before = self@;
        let ok = self.workers[id].mark_joined();
        proof {
            if ok {
                lemma_join_inv(before, id as int);
            } else {
                assert(self.workers@ =~= before.workers);
            }
        }
        ok
    }

    /// Whether every worker has been joined, that is, whether shutdown is
    /// complete.
    pub fn all_joined(&self) -> (done: bool)
        ensures
            done == self@.all_joined(),
    {
        let mut i: usize = 0;
        while i < self.workers.len()
            invariant
                i <= self.workers@.len(),
                forall|k: int| 0 <= k < i ==> (#[trigger] self.workers@[k]).joined,
            decreases self.workers@.len() - i,
        {
            if !self.workers[i].joined {
                return false;
            }
            i += 1;
        }
        true
    }

    /// Number of workers, fixed when the pool was created.
    pub fn size(&self) -> (n: usize)
        ensures
            n == self@.workers.len(),
    {
        self.workers.len()
    }

    /// Number of messages in the queue, jobs and terminate signals together.
    pub fn queued(&self) -> (n: usize)
        ensures
            n == self@.queue.len(),
    {
        self.channel.len()
    }

    /// Whether shutdown has begun.
    pub fn is_closing(&self) -> (b: bool)
        ensures
            b == self@.closing,
    {
        self.closing
    }

    /// The worker that holds the receive lock, if any.
    pub fn lock_holder(&self) -> (h: Option<usize>)
        ensures
            match h {
                Some(id) => self@.holder == Some(id as int),
                None => self@.holder is None,
            },
    {
        self.channel.holder()
    }

    /// The record of worker `id`, or `None` if the pool has no such worker.
    pub fn worker(&self, id: usize) -> (w: Option<Worker>)
        ensures
            match w {
                Some(w) => self@.has_worker(id as int) && w == self@.workers[id as int],
                None => !self@.has_worker(id as int),
            },
    {
        if id < self.workers.len() {
            Some(self.workers[id])
        } else {
            None
        }
    }
}

} // verus!
