//! The verified core of a small multi-threaded web server.
//!
//! The heart of it is a fixed-size worker pool. Jobs are submitted to a FIFO
//! dispatch channel; a fixed set of workers take turns at the channel's
//! receiving end, each taking one message under the receive lock, letting go
//! of the lock and only then running the job; shutdown queues one terminate
//! signal per worker behind the pending jobs and joins every worker.
//!
//! The pool is written as a state machine that never blocks and never runs a
//! job: each method is one step of the owner or of a worker, and a step that
//! cannot be taken yet says so and changes nothing. Threads, blocking and the
//! running of jobs belong to the caller.
//!
//! - [`message`]: what travels through the channel.
//! - [`channel`]: the FIFO queue with its receive lock.
//! - [`worker`]: one worker's record and its four states.
//! - [`pool`]: the pool itself.
//! - [`model`]: the pool as a mathematical value, its steps and schedules.
//! - [`validity`]: the pool's invariant, kept by every step.
//! - [`laws`]: what the invariant buys: every job runs exactly once, nothing
//!   is dropped on shutdown, shutdown ends after a known number of steps.
//! - [`counting`]: how many workers are in a given state, with the lemmas
//!   the laws need.
//! - [`request`]: which page a request is answered with.

pub mod channel;
pub mod counting;
pub mod laws;
pub mod message;
pub mod model;
pub mod pool;
pub mod request;
pub mod validity;
pub mod worker;
