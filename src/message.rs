use vstd::prelude::*;

verus! {

/// A unit carried on the pool's queue.
#[derive(Clone, Copy, Debug, PartialEq, Eq, Structural)]
pub enum Message {
    /// Run the job with this ticket.
    NewJob(u64),
    /// The worker that takes this leaves its loop.
    Terminate,
}

impl Message {
    /// Whether this message asks a worker to stop.
    pub fn is_terminate(&self) -> (r: bool)
        ensures
            r == (*self is Terminate),
    {
        match self {
            Message::NewJob(_) => false,
            Message::Terminate => true,
        }
    }
}

} // verus!
