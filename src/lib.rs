//! The scheduling core of a fixed-size worker pool.
//!
//! A pool owns a fixed set of workers and one FIFO queue of messages.
//! Submitting a job enqueues a `NewJob` message carrying the job's ticket;
//! teardown enqueues one `Terminate` message per worker. Workers take
//! messages from the front of the queue one at a time. The threads, the
//! lock around the queue and the closures themselves live with the caller,
//! which asks this core what each worker should do next.

pub mod message;
pub mod worker;
pub mod pool;

pub use message::Message;
pub use pool::{PoolView, Step, SubmitError, ThreadPool};
pub use worker::{Worker, WorkerState};
