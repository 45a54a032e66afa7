use vstd::prelude::*;

verus! {

/// A signal carried by the dispatch queue.
pub enum Message<J> {
    /// Run this job.
    NewJob(J),
    /// Stop taking work and exit.
    Terminate,
}

impl<J> Message<J> {
    /// Whether this message carries a job.
    pub fn is_job(&self) -> (b: bool)
        ensures
            b == (self is NewJob),
    {
        match self {
            Message::NewJob(_) => true,
            Message::Terminate => false,
        }
    }
}

} // verus!
