use crate::counting::{
    count_in_state, count_unjoined, lemma_count_in_state_extremes, lemma_count_in_state_update,
    lemma_count_unjoined_extremes, lemma_count_unjoined_update,
};
use crate::message::Message;
use crate::model::{PoolState, Step};
use crate::validity::{lemma_close_inv, lemma_init_inv, lemma_run_inv, lemma_step_inv};
use crate::worker::WorkerState;
use vstd::prelude::*;

verus! {

impl<J> Step<J> {
    /// Whether the step is taken by a worker or is a join, rather than a
    /// submission or the start of shutdown.
    pub open spec fn is_progress(self) -> bool {
        self is Acquire || self is Receive || self is Finish || self is Join
    }
}

impl<J> PoolState<J> {
    /// Whether the pool has come to rest: no worker can take a step and no
    /// worker can be joined, so nothing more happens until the owner acts.
    pub open spec fn settled(self) -> bool {
        forall|step: Step<J>| step.is_progress() ==> !#[trigger] self.enabled(step)
    }
}

/// Whether every step of the schedule is a worker step or a join.
pub open spec fn only_progress<J>(steps: Seq<Step<J>>) -> bool {
    forall|k: int| 0 <= k < steps.len() ==> (#[trigger] steps[k]).is_progress()
}

/// How many of `steps` are joins.
pub open spec fn count_joins<J>(steps: Seq<Step<J>>) -> nat
    decreases steps.len(),
{
    if steps.len() == 0 {
        0
    } else {
        count_joins(steps.skip(1)) + if steps[0] is Join {
            1nat
        } else {
            0nat
        }
    }
}

/// The jobs that `steps` submits, in order.
pub open spec fn submissions<J>(steps: Seq<Step<J>>) -> Seq<J>
    decreases steps.len(),
{
    if steps.len() == 0 {
        Seq::empty()
    } else {
        match steps[0] {
            Step::Submit(job) => seq![job] + submissions(steps.skip(1)),
            _ => submissions(steps.skip(1)),
        }
    }
}

/// A schedule in which two workers each take one of two jobs before either
/// job is done.
pub open spec fn overlapping_schedule<J>(first: J, second: J) -> Seq<Step<J>> {
    seq![
        Step::Submit(first),
        Step::Submit(second),
        Step::Acquire(0),
        Step::Receive(0),
        Step::Acquire(1),
        Step::Receive(1),
    ]
}

/// Whatever happens to a fresh pool, it stays valid: the laws below that ask
/// for a valid pool hold of every state that a pool can reach.
pub proof fn lemma_reachable_pool_is_valid<J>(size: usize, steps: Seq<Step<J>>)
    requires
        size > 0,
        PoolState::<J>::init(size as nat).admits(steps),
    ensures
        PoolState::<J>::init(size as nat).run(steps).inv(),
{
    lemma_init_inv::<J>(size);
    lemma_run_inv(PoolState::<J>::init(size as nat), steps);
}

/// No job ever runs twice, and a job that was not dequeued has not run.
pub proof fn lemma_no_job_runs_twice<J>(s: PoolState<J>, k: int)
    requires
        s.inv(),
        0 <= k < s.submitted.len(),
    ensures
        s.runs[k] <= 1,
        s.runs[k] == 1 ==> k < s.dispatched.len(),
{
    assert(s.job_ok(k));
}

/// Jobs leave the queue in the order in which they were submitted, and a
/// terminate signal reaches the front only when no job is left: the message
/// at the front is the oldest pending job, or a terminate signal if none is
/// pending.
pub proof fn lemma_front_is_oldest_job<J>(s: PoolState<J>)
    requires
        s.inv(),
        s.queue.len() > 0,
    ensures
        s.pending() > 0 ==> s.queue[0] == Message::NewJob(s.submitted[s.dispatched.len() as int]),
        s.pending() <= 0 ==> s.queue[0] is Terminate,
{
    assert(s.slot_ok(0));
}

/// At most one worker holds the receive lock, and a worker that is running
/// a job does not hold it.
pub proof fn lemma_lock_is_exclusive<J>(s: PoolState<J>, i: int, j: int)
    requires
        s.inv(),
        s.has_worker(i),
        s.has_worker(j),
    ensures
        s.workers[i].state == WorkerState::Locked && s.workers[j].state == WorkerState::Locked
            ==> i == j,
        s.workers[i].state == WorkerState::Executing ==> s.holder != Some(i),
{
    assert(s.worker_ok(i));
    assert(s.worker_ok(j));
}

/// During shutdown there is one terminate signal for each worker: those
/// still queued and the workers that have terminated add up to the size of
/// the pool. Before shutdown no terminate signal is queued and no worker has
/// terminated.
pub proof fn lemma_one_terminate_per_worker<J>(s: PoolState<J>)
    requires
        s.inv(),
    ensures
        s.closing ==> s.stops() + count_in_state(s.workers, WorkerState::Terminated)
            == s.workers.len(),
        !s.closing ==> s.stops() == 0 && count_in_state(s.workers, WorkerState::Terminated) == 0,
{
    assert forall|i: int| 0 <= i < s.workers.len() && !s.closing implies (
    #[trigger] s.workers[i]).state != WorkerState::Terminated by {
        assert(s.worker_ok(i));
    }
    lemma_count_in_state_extremes(s.workers, WorkerState::Terminated);
}

/// The pool never grows or shrinks, and is never empty: whatever happens to
/// a pool created with `size` workers, it has `size` workers, numbered from
/// zero in order.
pub proof fn lemma_size_never_changes<J>(size: usize, steps: Seq<Step<J>>)
    requires
        size > 0,
        PoolState::<J>::init(size as nat).admits(steps),
    ensures
        PoolState::<J>::init(size as nat).run(steps).workers.len() == size,
        forall|i: int|
            0 <= i < size ==> (#[trigger] PoolState::<J>::init(size as nat).run(
                steps,
            ).workers[i]).id == i,
{
    let s = PoolState::<J>::init(size as nat);
    lemma_init_inv::<J>(size);
    lemma_run_inv(s, steps);
    lemma_run_keeps_size(s, steps);
    assert forall|i: int| 0 <= i < size implies (#[trigger] s.run(steps).workers[i]).id == i by {
        assert(s.run(steps).worker_ok(i));
    }
}

/// No step adds or removes a worker.
pub proof fn lemma_run_keeps_size<J>(s: PoolState<J>, steps: Seq<Step<J>>)
    requires
        s.admits(steps),
    ensures
        s.run(steps).workers.len() == s.workers.len(),
    decreases steps.len(),
{
    if steps.len() > 0 {
        lemma_run_keeps_size(s.apply(steps[0]), steps.skip(1));
    }
}

/// Once every worker has been joined, the queue is empty and every job that
/// was ever submitted has run to completion exactly once.
pub proof fn lemma_joined_pool_ran_every_job_once<J>(s: PoolState<J>)
    requires
        s.inv(),
        s.all_joined(),
    ensures
        s.closing,
        s.holder is None,
        s.queue.len() == 0,
        s.dispatched.len() == s.submitted.len(),
        forall|i: int|
            0 <= i < s.workers.len() ==> (#[trigger] s.workers[i]).state
                == WorkerState::Terminated,
        forall|k: int| 0 <= k < s.submitted.len() ==> #[trigger] s.runs[k] == 1,
{
    assert forall|i: int| 0 <= i < s.workers.len() implies (#[trigger] s.workers[i]).state
        == WorkerState::Terminated by {
        assert(s.worker_ok(i));
    }
    assert(s.worker_ok(0));
    lemma_count_in_state_extremes(s.workers, WorkerState::Terminated);
    if s.holder is Some {
        assert(s.worker_ok(s.holder->0));
    }
    assert forall|k: int| 0 <= k < s.submitted.len() implies #[trigger] s.runs[k] == 1 by {
        assert(s.job_ok(k));
        assert(s.worker_ok(s.dispatched[k]));
    }
}

/// No job is lost on the way: when the pool has come to rest, the queue is
/// empty, every job that was ever submitted has run to completion exactly
/// once, and if shutdown has begun, every worker has been joined. Put the
/// other way round, as long as a message is queued, a job is running or a
/// shutdown is unfinished, some worker can take a step or be joined.
pub proof fn lemma_settled_pool_is_done<J>(s: PoolState<J>)
    requires
        s.inv(),
        s.settled(),
    ensures
        s.queue.len() == 0,
        s.dispatched.len() == s.submitted.len(),
        forall|k: int| 0 <= k < s.submitted.len() ==> #[trigger] s.runs[k] == 1,
        s.closing ==> s.all_joined(),
{
    assert forall|i: int| 0 <= i < s.workers.len() implies {
        let w = #[trigger] s.workers[i];
        &&& w.state != WorkerState::Executing
        &&& (w.state == WorkerState::Idle ==> s.holder is Some)
        &&& (w.state == WorkerState::Locked ==> s.queue.len() == 0)
        &&& (w.state == WorkerState::Terminated ==> w.joined && s.pending() == 0)
    } by {
        assert(s.worker_ok(i));
        assert(!s.enabled(Step::Acquire(i)));
        assert(!s.enabled(Step::Receive(i)));
        assert(!s.enabled(Step::Finish(i)));
        assert(!s.enabled(Step::Join(i)));
    }
    lemma_count_in_state_extremes(s.workers, WorkerState::Terminated);
    if s.holder is Some {
        assert(s.worker_ok(s.holder->0));
    } else {
        assert(s.worker_ok(0));
        assert(s.workers[0].state == WorkerState::Terminated);
    }
    assert(s.queue.len() == 0);
    if s.submitted.len() > s.dispatched.len() {
        assert(s.slot_ok(0));
    }
    assert forall|k: int| 0 <= k < s.submitted.len() implies #[trigger] s.runs[k] == 1 by {
        assert(s.job_ok(k));
        assert(s.worker_ok(s.dispatched[k]));
    }
}

/// After shutdown has begun nothing more is submitted: along any admissible
/// schedule the pool stays closing and keeps its list of submitted jobs, and
/// every step is a worker step or a join.
pub proof fn lemma_closing_run_keeps_jobs<J>(s: PoolState<J>, steps: Seq<Step<J>>)
    requires
        s.closing,
        s.admits(steps),
    ensures
        s.run(steps).closing,
        s.run(steps).submitted == s.submitted,
        only_progress(steps),
    decreases steps.len(),
{
    if steps.len() > 0 {
        let rest = steps.skip(1);
        lemma_closing_run_keeps_jobs(s.apply(steps[0]), rest);
        assert forall|k: int| 0 <= k < steps.len() implies (#[trigger] steps[k]).is_progress() by {
            if k > 0 {
                assert(rest[k - 1].is_progress());
            }
        }
    }
}

/// Shutdown drops nothing: if shutdown begins while jobs are still queued or
/// running, then, whatever the schedule, by the time every worker has been
/// joined the queue is empty and each of those jobs has run exactly once.
pub proof fn lemma_shutdown_drains_queue<J>(s: PoolState<J>, steps: Seq<Step<J>>)
    requires
        s.inv(),
        s.can_close(),
        s.close().admits(steps),
        s.close().run(steps).all_joined(),
    ensures
        s.close().run(steps).submitted == s.submitted,
        s.close().run(steps).queue.len() == 0,
        forall|k: int| 0 <= k < s.submitted.len() ==> #[trigger] s.close().run(steps).runs[k] == 1,
{
    let c = s.close();
    lemma_close_inv(s);
    lemma_run_inv(c, steps);
    lemma_closing_run_keeps_jobs(c, steps);
    lemma_joined_pool_ran_every_job_once(c.run(steps));
}

/// The count of steps still to come is never negative, and during shutdown
/// it is zero exactly when every worker has been joined.
pub proof fn lemma_remaining_zero_when_joined<J>(s: PoolState<J>)
    requires
        s.inv(),
    ensures
        s.remaining() >= 0,
        s.closing ==> (s.remaining() == 0 <==> s.all_joined()),
{
    lemma_count_in_state_extremes(s.workers, WorkerState::Terminated);
    lemma_count_in_state_extremes(s.workers, WorkerState::Executing);
    lemma_count_unjoined_extremes(s.workers);
    if s.holder is Some {
        let h = s.holder->0;
        assert(s.worker_ok(h));
        assert(!s.workers[h].joined);
        assert(s.workers[h].state != WorkerState::Terminated);
    }
    if s.all_joined() {
        lemma_joined_pool_ran_every_job_once(s);
    }
}

/// Every step of a worker, and every join, brings the end of shutdown
/// exactly one step closer.
pub proof fn lemma_progress_counts_down<J>(s: PoolState<J>, step: Step<J>)
    requires
        s.inv(),
        s.enabled(step),
        step.is_progress(),
    ensures
        s.apply(step).remaining() == s.remaining() - 1,
{
    let t = s.apply(step);
    match step {
        Step::Acquire(id) => {
            lemma_count_in_state_update(s.workers, id, t.workers[id], WorkerState::Executing);
            lemma_count_unjoined_update(s.workers, id, t.workers[id]);
        },
        Step::Receive(id) => {
            assert(s.worker_ok(id));
            lemma_count_in_state_update(s.workers, id, t.workers[id], WorkerState::Executing);
            lemma_count_unjoined_update(s.workers, id, t.workers[id]);
        },
        Step::Finish(id) => {
            assert(s.worker_ok(id));
            lemma_count_in_state_update(s.workers, id, t.workers[id], WorkerState::Executing);
            lemma_count_unjoined_update(s.workers, id, t.workers[id]);
        },
        Step::Join(id) => {
            lemma_count_in_state_update(s.workers, id, t.workers[id], WorkerState::Executing);
            lemma_count_unjoined_update(s.workers, id, t.workers[id]);
        },
        _ => {},
    }
}

/// Shutdown cannot stall: while some worker is still unjoined, a worker step
/// or a join is possible.
pub proof fn lemma_shutdown_never_stalls<J>(s: PoolState<J>) -> (step: Step<J>)
    requires
        s.inv(),
        s.closing,
        !s.all_joined(),
    ensures
        step.is_progress(),
        s.enabled(step),
{
    let i = choose|i: int| 0 <= i < s.workers.len() && !(#[trigger] s.workers[i]).joined;
    assert(s.worker_ok(i));
    if s.holder is Some {
        let h = s.holder->0;
        assert(s.worker_ok(h));
        lemma_count_in_state_extremes(s.workers, WorkerState::Terminated);
        assert(s.stops() >= 1);
        Step::Receive(h)
    } else {
        match s.workers[i].state {
            WorkerState::Idle => Step::Acquire(i),
            WorkerState::Locked => Step::Receive(i),
            WorkerState::Executing => Step::Finish(i),
            WorkerState::Terminated => Step::Join(i),
        }
    }
}

/// Work that was handed in is bounded: as long as the owner neither submits
/// nor begins shutdown, every admissible schedule uses up the count of
/// remaining steps one by one, so it is never longer than that count. The
/// joins in it are as many as the workers it joined.
pub proof fn lemma_progress_is_bounded<J>(s: PoolState<J>, steps: Seq<Step<J>>)
    requires
        s.inv(),
        s.admits(steps),
        only_progress(steps),
    ensures
        s.run(steps).remaining() == s.remaining() - steps.len(),
        steps.len() <= s.remaining(),
        count_joins(steps) == count_unjoined(s.workers) - count_unjoined(s.run(steps).workers),
    decreases steps.len(),
{
    lemma_run_inv(s, steps);
    lemma_remaining_zero_when_joined(s.run(steps));
    if steps.len() > 0 {
        let t = s.apply(steps[0]);
        let rest = steps.skip(1);
        assert(steps[0].is_progress());
        assert forall|k: int| 0 <= k < rest.len() implies (#[trigger] rest[k]).is_progress() by {
            assert(steps[k + 1].is_progress());
        }
        lemma_step_inv(s, steps[0]);
        lemma_progress_counts_down(s, steps[0]);
        lemma_progress_is_bounded(t, rest);
        match steps[0] {
            Step::Acquire(id) => lemma_count_unjoined_update(s.workers, id, t.workers[id]),
            Step::Receive(id) => lemma_count_unjoined_update(s.workers, id, t.workers[id]),
            Step::Finish(id) => lemma_count_unjoined_update(s.workers, id, t.workers[id]),
            Step::Join(id) => lemma_count_unjoined_update(s.workers, id, t.workers[id]),
            _ => {},
        }
    }
}

/// Shutdown ends after a fixed number of steps: from a closing pool every
/// admissible schedule is at most as long as the count of remaining steps,
/// and it is that long exactly when every worker has been joined. The joins
/// in it are as many as the workers it joined.
pub proof fn lemma_shutdown_is_bounded<J>(s: PoolState<J>, steps: Seq<Step<J>>)
    requires
        s.inv(),
        s.closing,
        s.admits(steps),
    ensures
        steps.len() <= s.remaining(),
        steps.len() == s.remaining() <==> s.run(steps).all_joined(),
        count_joins(steps) == count_unjoined(s.workers) - count_unjoined(s.run(steps).workers),
{
    lemma_run_inv(s, steps);
    lemma_closing_run_keeps_jobs(s, steps);
    lemma_progress_is_bounded(s, steps);
    lemma_remaining_zero_when_joined(s.run(steps));
}

/// A pool of `size` workers that is shut down before anything was submitted
/// is fully joined after exactly `3 * size` steps (each worker takes the
/// lock, dequeues its terminate signal and is joined), whatever the schedule,
/// and exactly `size` of those steps are joins.
pub proof fn lemma_idle_pool_shuts_down<J>(size: usize, steps: Seq<Step<J>>)
    requires
        size > 0,
        PoolState::<J>::init(size as nat).close().admits(steps),
    ensures
        steps.len() <= 3 * size,
        steps.len() == 3 * size <==> PoolState::<J>::init(size as nat).close().run(
            steps,
        ).all_joined(),
        steps.len() == 3 * size ==> count_joins(steps) == size,
{
    let s = PoolState::<J>::init(size as nat);
    let c = s.close();
    lemma_init_inv::<J>(size);
    lemma_close_inv(s);
    lemma_count_in_state_extremes(c.workers, WorkerState::Executing);
    lemma_count_in_state_extremes(c.workers, WorkerState::Terminated);
    lemma_count_unjoined_extremes(c.workers);
    assert(c.remaining() == 3 * size);
    lemma_shutdown_is_bounded(c, steps);
    lemma_run_inv(c, steps);
    lemma_count_unjoined_extremes(c.run(steps).workers);
}

/// The history of submitted jobs grows by exactly the jobs that a schedule
/// submits, in the order in which it submits them.
pub proof fn lemma_run_records_submissions<J>(s: PoolState<J>, steps: Seq<Step<J>>)
    ensures
        s.run(steps).submitted == s.submitted + submissions(steps),
    decreases steps.len(),
{
    if steps.len() == 0 {
        assert(s.submitted + submissions(steps) =~= s.submitted);
    } else {
        let t = s.apply(steps[0]);
        lemma_run_records_submissions(t, steps.skip(1));
        assert(t.submitted + submissions(steps.skip(1)) =~= s.submitted + submissions(steps));
    }
}

/// Every job runs exactly once: take a fresh pool of any size and any
/// admissible schedule of submissions, shutdown, worker steps and joins. If at
/// its end every worker has been joined, then the queue is empty and each job
/// that the schedule submitted has run to completion exactly once.
pub proof fn lemma_every_job_runs_once<J>(size: usize, steps: Seq<Step<J>>)
    requires
        size > 0,
        PoolState::<J>::init(size as nat).admits(steps),
        PoolState::<J>::init(size as nat).run(steps).all_joined(),
    ensures
        PoolState::<J>::init(size as nat).run(steps).submitted == submissions(steps),
        PoolState::<J>::init(size as nat).run(steps).runs.len() == submissions(steps).len(),
        PoolState::<J>::init(size as nat).run(steps).queue.len() == 0,
        forall|k: int|
            0 <= k < submissions(steps).len() ==> #[trigger] PoolState::<J>::init(
                size as nat,
            ).run(steps).runs[k] == 1,
{
    let s = PoolState::<J>::init(size as nat);
    lemma_init_inv::<J>(size);
    lemma_run_inv(s, steps);
    lemma_run_records_submissions(s, steps);
    assert(s.submitted + submissions(steps) =~= submissions(steps));
    lemma_joined_pool_ran_every_job_once(s.run(steps));
}

/// Jobs are not serialised: in a pool of two or more workers, two submitted
/// jobs can both be running at the same moment, each on a worker of its own
/// and neither worker holding the lock.
pub proof fn lemma_two_jobs_can_overlap<J>(size: usize, first: J, second: J)
    requires
        size >= 2,
    ensures
        PoolState::<J>::init(size as nat).admits(overlapping_schedule(first, second)),
        ({
            let s = PoolState::<J>::init(size as nat).run(overlapping_schedule(first, second));
            &&& s.workers[0].state == WorkerState::Executing
            &&& s.workers[1].state == WorkerState::Executing
            &&& s.submitted[s.current[0]] == first
            &&& s.submitted[s.current[1]] == second
            &&& s.runs[s.current[0]] == 0
            &&& s.runs[s.current[1]] == 0
            &&& s.holder is None
        }),
{
    reveal_with_fuel(PoolState::admits, 8);
    reveal_with_fuel(PoolState::run, 8);
    let steps = overlapping_schedule(first, second);
    let s0 = PoolState::<J>::init(size as nat);
    let s1 = s0.submit(first);
    let s2 = s1.submit(second);
    let s3 = s2.acquire(0);
    let s4 = s3.receive(0);
    let s5 = s4.acquire(1);
    let s6 = s5.receive(1);
    assert(s2.can_acquire(0));
    assert(s3.can_receive(0));
    assert(s4.can_acquire(1));
    assert(s5.can_receive(1));
    assert(steps.skip(1).skip(1).skip(1).skip(1).skip(1).skip(1).len() == 0);
    assert(s0.run(steps) == s6);
}

} // verus!
