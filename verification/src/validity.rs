use crate::counting::{
    count_in_state, lemma_count_in_state_extremes, lemma_count_in_state_update,
};
use crate::message::Message;
use crate::model::{PoolState, Step};
use crate::worker::WorkerState;
use vstd::prelude::*;

verus! {

impl<J> PoolState<J> {
    /// What must hold of worker `i`: it carries its own position as id, it is
    /// `Locked` exactly while it holds the lock, it terminates only during
    /// shutdown and after the last job has left the queue, it is joined only
    /// after terminating, and while it executes, the history names it as the
    /// one taker of a job that has not run yet.
    pub open spec fn worker_ok(self, i: int) -> bool {
        let w = self.workers[i];
        &&& w.id == i
        &&& (w.state == WorkerState::Locked <==> self.holder == Some(i))
        &&& (w.state == WorkerState::Terminated ==> self.closing && self.pending() == 0)
        &&& (w.joined ==> w.state == WorkerState::Terminated)
        &&& (w.state == WorkerState::Executing ==> {
            &&& 0 <= self.current[i] < self.dispatched.len()
            &&& self.dispatched[self.current[i]] == i
            &&& self.runs[self.current[i]] == 0
        })
    }

    /// What must hold of the `k`-th submitted job: while it waits it has not
    /// run; once a worker took it, it has run at most once, and if it has not
    /// run yet, that worker is executing it right now.
    pub open spec fn job_ok(self, k: int) -> bool {
        if k < self.dispatched.len() {
            let w = self.dispatched[k];
            &&& self.has_worker(w)
            &&& self.runs[k] <= 1
            &&& (self.runs[k] == 0 ==> self.workers[w].state == WorkerState::Executing
                && self.current[w] == k)
        } else {
            self.runs[k] == 0
        }
    }

    /// What must hold of queue position `k`: the pending jobs come first, in
    /// submission order, and only terminate signals follow them.
    pub open spec fn slot_ok(self, k: int) -> bool {
        if k < self.pending() {
            self.queue[k] == Message::NewJob(self.submitted[self.dispatched.len() + k])
        } else {
            self.queue[k] is Terminate
        }
    }

    /// The pool's invariant. Every state that `init` and the steps can reach
    /// satisfies it.
    pub open spec fn inv(self) -> bool {
        &&& self.workers.len() >= 1
        &&& self.current.len() == self.workers.len()
        &&& self.runs.len() == self.submitted.len()
        &&& self.dispatched.len() <= self.submitted.len()
        &&& (self.holder matches Some(h) ==> self.has_worker(h))
        &&& self.stops() == if self.closing {
            self.workers.len() - count_in_state(self.workers, WorkerState::Terminated)
        } else {
            0
        }
        &&& forall|i: int| 0 <= i < self.workers.len() ==> #[trigger] self.worker_ok(i)
        &&& forall|k: int| 0 <= k < self.submitted.len() ==> #[trigger] self.job_ok(k)
        &&& forall|k: int| 0 <= k < self.queue.len() ==> #[trigger] self.slot_ok(k)
    }
}

/// A fresh pool is valid.
pub proof fn lemma_init_inv<J>(size: usize)
    requires
        size > 0,
    ensures
        PoolState::<J>::init(size as nat).inv(),
{
    let s = PoolState::<J>::init(size as nat);
    assert forall|i: int| 0 <= i < s.workers.len() implies #[trigger] s.worker_ok(i) by {}
}

/// Submitting keeps the pool valid.
pub proof fn lemma_submit_inv<J>(s: PoolState<J>, job: J)
    requires
        s.inv(),
        s.can_submit(),
    ensures
        s.submit(job).inv(),
{
    let t = s.submit(job);
    assert forall|i: int| 0 <= i < t.workers.len() implies #[trigger] t.worker_ok(i) by {
        assert(s.worker_ok(i));
    }
    assert forall|k: int| 0 <= k < t.submitted.len() implies #[trigger] t.job_ok(k) by {
        if k < s.submitted.len() {
            assert(s.job_ok(k));
        }
    }
    assert forall|k: int| 0 <= k < t.queue.len() implies #[trigger] t.slot_ok(k) by {
        if k < s.queue.len() {
            assert(s.slot_ok(k));
        }
    }
}

/// Beginning shutdown keeps the pool valid.
pub proof fn lemma_close_inv<J>(s: PoolState<J>)
    requires
        s.inv(),
        s.can_close(),
    ensures
        s.close().inv(),
{
    let t = s.close();
    assert forall|i: int| 0 <= i < t.workers.len() implies #[trigger] t.worker_ok(i) by {
        assert(s.worker_ok(i));
    }
    assert forall|k: int| 0 <= k < t.submitted.len() implies #[trigger] t.job_ok(k) by {
        assert(s.job_ok(k));
    }
    assert forall|k: int| 0 <= k < t.queue.len() implies #[trigger] t.slot_ok(k) by {
        if k < s.queue.len() {
            assert(s.slot_ok(k));
        }
    }
    assert forall|i: int| 0 <= i < s.workers.len() implies (#[trigger] s.workers[i]).state
        != WorkerState::Terminated by {
        assert(s.worker_ok(i));
    }
    lemma_count_in_state_extremes(s.workers, WorkerState::Terminated);
}

/// Taking the lock keeps the pool valid.
pub proof fn lemma_acquire_inv<J>(s: PoolState<J>, id: int)
    requires
        s.inv(),
        s.can_acquire(id),
    ensures
        s.acquire(id).inv(),
{
    let t = s.acquire(id);
    assert(s.worker_ok(id));
    assert forall|i: int| 0 <= i < t.workers.len() implies #[trigger] t.worker_ok(i) by {
        assert(s.worker_ok(i));
    }
    assert forall|k: int| 0 <= k < t.submitted.len() implies #[trigger] t.job_ok(k) by {
        assert(s.job_ok(k));
        if k < s.dispatched.len() {
            assert(s.worker_ok(s.dispatched[k]));
        }
    }
    assert forall|k: int| 0 <= k < t.queue.len() implies #[trigger] t.slot_ok(k) by {
        assert(s.slot_ok(k));
    }
    lemma_count_in_state_update(s.workers, id, t.workers[id], WorkerState::Terminated);
}

/// Dequeuing a message keeps the pool valid.
pub proof fn lemma_receive_inv<J>(s: PoolState<J>, id: int)
    requires
        s.inv(),
        s.can_receive(id),
    ensures
        s.receive(id).inv(),
{
    let t = s.receive(id);
    assert(s.worker_ok(id));
    assert(s.slot_ok(0));
    if s.queue[0] is NewJob {
        assert(s.job_ok(s.dispatched.len() as int));
    }
    lemma_count_in_state_update(s.workers, id, t.workers[id], WorkerState::Terminated);
    assert forall|i: int| 0 <= i < t.workers.len() implies #[trigger] t.worker_ok(i) by {
        assert(s.worker_ok(i));
    }
    assert forall|k: int| 0 <= k < t.submitted.len() implies #[trigger] t.job_ok(k) by {
        assert(s.job_ok(k));
        if k < s.dispatched.len() {
            assert(s.worker_ok(s.dispatched[k]));
        }
    }
    assert forall|k: int| 0 <= k < t.queue.len() implies #[trigger] t.slot_ok(k) by {
        assert(s.slot_ok(k + 1));
    }
}

/// Completing a job keeps the pool valid.
pub proof fn lemma_finish_inv<J>(s: PoolState<J>, id: int)
    requires
        s.inv(),
        s.can_finish(id),
    ensures
        s.finish(id).inv(),
{
    let t = s.finish(id);
    assert(s.worker_ok(id));
    lemma_count_in_state_update(s.workers, id, t.workers[id], WorkerState::Terminated);
    assert forall|i: int| 0 <= i < t.workers.len() implies #[trigger] t.worker_ok(i) by {
        assert(s.worker_ok(i));
    }
    assert forall|k: int| 0 <= k < t.submitted.len() implies #[trigger] t.job_ok(k) by {
        assert(s.job_ok(k));
        assert(s.job_ok(s.current[id]));
        if k < s.dispatched.len() {
            assert(s.worker_ok(s.dispatched[k]));
        }
    }
    assert forall|k: int| 0 <= k < t.queue.len() implies #[trigger] t.slot_ok(k) by {
        assert(s.slot_ok(k));
    }
}

/// Joining a worker keeps the pool valid.
pub proof fn lemma_join_inv<J>(s: PoolState<J>, id: int)
    requires
        s.inv(),
        s.can_join(id),
    ensures
        s.join(id).inv(),
{
    let t = s.join(id);
    assert(s.worker_ok(id));
    lemma_count_in_state_update(s.workers, id, t.workers[id], WorkerState::Terminated);
    assert forall|i: int| 0 <= i < t.workers.len() implies #[trigger] t.worker_ok(i) by {
        assert(s.worker_ok(i));
    }
    assert forall|k: int| 0 <= k < t.submitted.len() implies #[trigger] t.job_ok(k) by {
        assert(s.job_ok(k));
        if k < s.dispatched.len() {
            assert(s.worker_ok(s.dispatched[k]));
        }
    }
    assert forall|k: int| 0 <= k < t.queue.len() implies #[trigger] t.slot_ok(k) by {
        assert(s.slot_ok(k));
    }
}

/// Every enabled step keeps the pool valid.
pub proof fn lemma_step_inv<J>(s: PoolState<J>, step: Step<J>)
    requires
        s.inv(),
        s.enabled(step),
    ensures
        s.apply(step).inv(),
{
    match step {
        Step::Submit(job) => lemma_submit_inv(s, job),
        Step::Close => lemma_close_inv(s),
        Step::Acquire(id) => lemma_acquire_inv(s, id),
        Step::Receive(id) => lemma_receive_inv(s, id),
        Step::Finish(id) => lemma_finish_inv(s, id),
        Step::Join(id) => lemma_join_inv(s, id),
    }
}

/// Every admissible schedule keeps the pool valid.
pub proof fn lemma_run_inv<J>(s: PoolState<J>, steps: Seq<Step<J>>)
    requires
        s.inv(),
        s.admits(steps),
    ensures
        s.run(steps).inv(),
    decreases steps.len(),
{
    if steps.len() > 0 {
        lemma_step_inv(s, steps[0]);
        lemma_run_inv(s.apply(steps[0]), steps.skip(1));
    }
}

} // verus!
