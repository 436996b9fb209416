use vstd::prelude::*;

verus! {

/// Where a worker stands in its receive-execute loop.
#[derive(Clone, Copy, Debug, PartialEq, Eq, Structural)]
pub enum WorkerState {
    /// Waiting to take the next message from the queue.
    Idle,
    /// Running the job with this ticket.
    Busy(u64),
    /// Took a `Terminate` message and left its loop.
    Exited,
    /// Its job failed without recovering; its thread is gone for good.
    Faulted,
}

/// One worker of a pool: a fixed identity and the state of its loop.
#[derive(Clone, Copy, Debug, PartialEq, Eq, Structural)]
pub struct Worker {
    pub id: usize,
    pub state: WorkerState,
}

impl WorkerState {
    /// A worker whose thread still runs its loop.
    pub open spec fn is_live(self) -> bool {
        self is Idle || self is Busy
    }
}

impl Worker {
    /// A worker that has just been started and waits for its first message.
    pub fn new(id: usize) -> (w: Worker)
        ensures
            w.id == id,
            w.state == WorkerState::Idle,
    {
        Worker { id, state: WorkerState::Idle }
    }

    /// Whether this worker's thread still runs its loop.
    pub fn is_live(&self) -> (r: bool)
        ensures
            r == self.state.is_live(),
    {
        match self.state {
            WorkerState::Idle => true,
            WorkerState::Busy(_) => true,
            WorkerState::Exited => false,
            WorkerState::Faulted => false,
        }
    }
}

/// How many workers of `ws` have a state that satisfies `f`.
pub open spec fn count_where(ws: Seq<Worker>, f: spec_fn(WorkerState) -> bool) -> nat
    decreases ws.len(),
{
    if ws.len() == 0 {
        0
    } else {
        count_where(ws.drop_last(), f) + if f(ws.last().state) {
            1nat
        } else {
            0nat
        }
    }
}

/// At most every worker is counted.
pub proof fn lemma_count_bound(ws: Seq<Worker>, f: spec_fn(WorkerState) -> bool)
    ensures
        count_where(ws, f) <= ws.len(),
    decreases ws.len(),
{
    if ws.len() > 0 {
        lemma_count_bound(ws.drop_last(), f);
    }
}

/// No worker satisfies `f`: the count is zero.
pub proof fn lemma_count_none(ws: Seq<Worker>, f: spec_fn(WorkerState) -> bool)
    requires
        forall|i: int| 0 <= i < ws.len() ==> !f(#[trigger] ws[i].state),
    ensures
        count_where(ws, f) == 0,
    decreases ws.len(),
{
    if ws.len() > 0 {
        lemma_count_none(ws.drop_last(), f);
    }
}

/// Every worker satisfies `f`: all are counted.
pub proof fn lemma_count_all(ws: Seq<Worker>, f: spec_fn(WorkerState) -> bool)
    requires
        forall|i: int| 0 <= i < ws.len() ==> f(#[trigger] ws[i].state),
    ensures
        count_where(ws, f) == ws.len(),
    decreases ws.len(),
{
    if ws.len() > 0 {
        lemma_count_all(ws.drop_last(), f);
    }
}

/// One worker satisfies `f`: the count is positive.
pub proof fn lemma_count_some(ws: Seq<Worker>, f: spec_fn(WorkerState) -> bool, i: int)
    requires
        0 <= i < ws.len(),
        f(ws[i].state),
    ensures
        count_where(ws, f) > 0,
    decreases ws.len(),
{
    if i < ws.len() - 1 {
        lemma_count_some(ws.drop_last(), f, i);
    }
}

/// Replacing one worker moves the count by what the old and new states add.
pub proof fn lemma_count_update(ws: Seq<Worker>, i: int, w: Worker, f: spec_fn(WorkerState) -> bool)
    requires
        0 <= i < ws.len(),
    ensures
        count_where(ws.update(i, w), f) + (if f(ws[i].state) {
            1nat
        } else {
            0nat
        }) == count_where(ws, f) + (if f(w.state) {
            1nat
        } else {
            0nat
        }),
    decreases ws.len(),
{
    if i == ws.len() - 1 {
        assert(ws.update(i, w).drop_last() =~= ws.drop_last());
    } else {
        assert(ws.update(i, w).drop_last() =~= ws.drop_last().update(i, w));
        lemma_count_update(ws.drop_last(), i, w, f);
    }
}

} // verus!
