use crate::message::Message;
use vstd::prelude::*;

verus! {

/// Where a worker stands in its receive loop.
#[derive(Clone, Copy, Debug, PartialEq, Eq, Structural)]
pub enum WorkerState {
    /// Waiting for the receive lock; holds nothing.
    Idle,
    /// Holds the receive lock and is about to dequeue one message.
    Locked,
    /// Running a job; the lock has already been released.
    Executing,
    /// Left the loop after a terminate signal. No way back.
    Terminated,
}

/// The pool's record of one worker.
#[derive(Clone, Copy, Debug, PartialEq, Eq, Structural)]
pub struct Worker {
    /// Position in the pool, counted from zero.
    pub id: usize,
    /// Current stage of the receive loop.
    pub state: WorkerState,
    /// Whether the owner has already joined this worker's thread.
    pub joined: bool,
}

impl Worker {
    /// A fresh worker: idle and not yet joined.
    pub fn new(id: usize) -> (w: Worker)
        ensures
            w == (Worker { id, state: WorkerState::Idle, joined: false }),
    {
        Worker { id, state: WorkerState::Idle, joined: false }
    }

    /// This worker in another state.
    pub open spec fn moved_to(self, state: WorkerState) -> Worker {
        Worker { state, ..self }
    }

    /// The state that follows the receipt of `message`: a job is executed, a
    /// terminate signal ends the loop.
    pub open spec fn state_after<J>(message: Message<J>) -> WorkerState {
        match message {
            Message::NewJob(_) => WorkerState::Executing,
            Message::Terminate => WorkerState::Terminated,
        }
    }

    /// The receive lock was granted. An idle worker becomes `Locked` and the
    /// result is `true`; in any other state nothing changes.
    pub fn lock_granted(&mut self) -> (ok: bool)
        ensures
            ok == (old(self).state == WorkerState::Idle),
            *final(self) == if ok {
                old(self).moved_to(WorkerState::Locked)
            } else {
                *old(self)
            },
    {
        if self.state == WorkerState::Idle {
            self.state = WorkerState::Locked;
            true
        } else {
            false
        }
    }

    /// `message` was dequeued and the lock released. A `Locked` worker starts
    /// executing on a job, or terminates on a terminate signal, and the
    /// result is `true`; in any other state nothing changes.
    pub fn deliver<J>(&mut self, message: &Message<J>) -> (ok: bool)
        ensures
            ok == (old(self).state == WorkerState::Locked),
            *final(self) == if ok {
                old(self).moved_to(Worker::state_after(*message))
            } else {
                *old(self)
            },
    {
        if self.state == WorkerState::Locked {
            if message.is_job() {
                self.state = WorkerState::Executing;
            } else {
                self.state = WorkerState::Terminated;
            }
            true
        } else {
            false
        }
    }

    /// The job ran to completion. An executing worker becomes idle again and
    /// the result is `true`; in any other state nothing changes.
    pub fn job_done(&mut self) -> (ok: bool)
        ensures
            ok == (old(self).state == WorkerState::Executing),
            *final(self) == if ok {
                old(self).moved_to(WorkerState::Idle)
            } else {
                *old(self)
            },
    {
        if self.state == WorkerState::Executing {
            self.state = WorkerState::Idle;
            true
        } else {
            false
        }
    }

    /// The owner joined this worker's thread. A terminated worker that was
    /// not joined before is marked as joined and the result is `true`;
    /// otherwise nothing changes, so a worker is joined at most once.
    pub fn mark_joined(&mut self) -> (ok: bool)
        ensures
            ok == (old(self).state == WorkerState::Terminated && !old(self).joined),
            *final(self) == if ok {
                (Worker { joined: true, ..*old(self) })
            } else {
                *old(self)
            },
    {
        if self.state == WorkerState::Terminated && !self.joined {
            self.joined = true;
            true
        } else {
            false
        }
    }
}

} // verus!
