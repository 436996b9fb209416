use std::collections::VecDeque;
use vstd::prelude::*;

use crate::message::Message;
use crate::worker::{
    count_where, lemma_count_all, lemma_count_bound, lemma_count_none, lemma_count_some,
    lemma_count_update, Worker, WorkerState,
};

verus! {

/// What a worker is told to do after asking for its next message.
#[derive(Clone, Copy, Debug, PartialEq, Eq, Structural)]
pub enum Step {
    /// The queue is empty: block until something is submitted.
    Wait,
    /// Run the job with this ticket, then report back.
    Run(u64),
    /// Leave the loop; the worker's thread ends.
    Exit,
}

/// Why a job was not accepted.
#[derive(Clone, Copy, Debug, PartialEq, Eq, Structural)]
pub enum SubmitError {
    /// Teardown has begun: every worker has been sent its `Terminate`.
    ShutDown,
    /// Every ticket a `u64` can hold has been handed out.
    TicketsExhausted,
}

/// The scheduling state of a fixed-size pool: its workers, the FIFO queue
/// they share, and the counters that account for every submitted job.
pub struct ThreadPool {
    workers: Vec<Worker>,
    queue: VecDeque<Message>,
    next_ticket: u64,
    dispatched: u64,
    completed: u64,
    faulted: u64,
    shutting_down: bool,
}

/// The mathematical state of a pool.
pub ghost struct PoolView {
    /// The workers, in identity order.
    pub workers: Seq<Worker>,
    /// The messages not taken yet, front first.
    pub queue: Seq<Message>,
    /// The ticket the next submitted job gets; also the number of jobs submitted.
    pub next_ticket: nat,
    /// The number of jobs handed to a worker.
    pub dispatched: nat,
    /// The number of jobs that ran to completion.
    pub completed: nat,
    /// The number of jobs that failed and took their worker down.
    pub faulted: nat,
    /// Whether teardown has begun.
    pub shutting_down: bool,
}

impl View for ThreadPool {
    type V = PoolView;

    closed spec fn view(&self) -> PoolView {
        PoolView {
            workers: self.workers@,
            queue: self.queue@,
            next_ticket: self.next_ticket as nat,
            dispatched: self.dispatched as nat,
            completed: self.completed as nat,
            faulted: self.faulted as nat,
            shutting_down: self.shutting_down,
        }
    }
}

/// The `NewJob` messages for tickets `lo`, `lo + 1`, ..., `hi - 1`, in order.
pub open spec fn job_range(lo: nat, hi: nat) -> Seq<Message> {
    Seq::new((hi - lo) as nat, |i: int| Message::NewJob((lo + i) as u64))
}

/// `k` `Terminate` messages.
pub open spec fn terminates(k: nat) -> Seq<Message> {
    Seq::new(k, |i: int| Message::Terminate)
}

/// A worker running a job.
pub open spec fn is_busy(s: WorkerState) -> bool {
    s is Busy
}

/// A worker that took its `Terminate`.
pub open spec fn is_exited(s: WorkerState) -> bool {
    s is Exited
}

/// A worker whose job failed.
pub open spec fn is_faulted(s: WorkerState) -> bool {
    s is Faulted
}

impl PoolView {
    /// The number of workers that have not yet taken a `Terminate`.
    pub open spec fn not_exited(self) -> nat {
        (self.workers.len() - count_where(self.workers, |s: WorkerState| is_exited(s))) as nat
    }

    /// The number of workers running a job.
    pub open spec fn busy(self) -> nat {
        count_where(self.workers, |s: WorkerState| is_busy(s))
    }

    /// The well-formed states: worker `i` has identity `i`; the queue holds
    /// the jobs not yet handed out in ticket order, followed, once teardown
    /// has begun, by one `Terminate` for each worker that has not taken one;
    /// every dispatched job is running, has completed, or has faulted; and
    /// the busy workers run distinct jobs that were handed out.
    pub open spec fn wf(self) -> bool {
        &&& self.workers.len() > 0
        &&& forall|i: int| 0 <= i < self.workers.len() ==> (#[trigger] self.workers[i]).id == i
        &&& self.dispatched <= self.next_ticket
        &&& self.next_ticket <= u64::MAX
        &&& self.queue == job_range(self.dispatched, self.next_ticket) + terminates(
            if self.shutting_down {
                self.not_exited()
            } else {
                0
            },
        )
        &&& !self.shutting_down ==> forall|i: int|
            0 <= i < self.workers.len() ==> !((#[trigger] self.workers[i]).state is Exited)
        &&& count_where(self.workers, |s: WorkerState| is_exited(s)) > 0 ==> self.dispatched
            == self.next_ticket
        &&& self.dispatched == self.completed + self.faulted + self.busy()
        &&& self.faulted == count_where(self.workers, |s: WorkerState| is_faulted(s))
        &&& forall|i: int|
            0 <= i < self.workers.len() && (#[trigger] self.workers[i]).state is Busy
                ==> self.workers[i].state->Busy_0 < self.dispatched
        &&& forall|i: int, j: int|
            0 <= i < self.workers.len() && 0 <= j < self.workers.len() && i != j
                && (#[trigger] self.workers[i]).state is Busy
                && (#[trigger] self.workers[j]).state is Busy
                ==> self.workers[i].state->Busy_0 != self.workers[j].state->Busy_0
    }
}

impl ThreadPool {
    pub closed spec fn wf(&self) -> bool {
        self@.wf()
    }

    /// A pool of `size` workers, identities `0..size`, all waiting on an
    /// empty queue.
    pub fn new(size: usize) -> (p: ThreadPool)
        requires
            size > 0,
        ensures
            p.wf(),
            p@.workers.len() == size,
            forall|i: int|
                0 <= i < size ==> (#[trigger] p@.workers[i]).id == i && p@.workers[i].state
                    == WorkerState::Idle,
            p@.queue.len() == 0,
            p@.next_ticket == 0,
            p@.dispatched == 0,
            p@.completed == 0,
            p@.faulted == 0,
            !p@.shutting_down,
    {
        let mut workers: Vec<Worker> = Vec::with_capacity(size);
        let mut i: usize = 0;
        while i < size
            invariant
                i <= size,
                workers@.len() == i,
                forall|j: int|
                    0 <= j < i ==> (#[trigger] workers@[j]).id == j && workers@[j].state
                        == WorkerState::Idle,
            decreases size - i,
        {
            workers.push(Worker::new(i));
            i = i + 1;
        }
        let p = ThreadPool {
            workers,
            queue: VecDeque::new(),
            next_ticket: 0,
            dispatched: 0,
            completed: 0,
            faulted: 0,
            shutting_down: false,
        };
        proof {
            lemma_count_none(workers@, |s: WorkerState| is_exited(s));
            lemma_count_none(workers@, |s: WorkerState| is_busy(s));
            lemma_count_none(workers@, |s: WorkerState| is_faulted(s));
            assert(p@.queue =~= job_range(0, 0) + terminates(0));
        }
        p
    }

    /// Submits one job. On success the job's ticket is returned and a
    /// `NewJob` message for it is put at the back of the queue; exactly one
    /// worker will later be told to run it. Once teardown has begun nothing
    /// is accepted.
    pub fn execute(&mut self) -> (r: Result<u64, SubmitError>)
        requires
            old(self).wf(),
        ensures
            final(self).wf(),
            old(self)@.shutting_down ==> r == Err::<u64, SubmitError>(SubmitError::ShutDown),
            !old(self)@.shutting_down && old(self)@.next_ticket == u64::MAX ==> r == Err::<
                u64,
                SubmitError,
            >(SubmitError::TicketsExhausted),
            r is Err ==> final(self)@ == old(self)@,
            r is Ok <==> !old(self)@.shutting_down && old(self)@.next_ticket < u64::MAX,
            r matches Ok(t) ==> {
                &&& t == old(self)@.next_ticket
                &&& final(self)@ == (PoolView {
                    queue: old(self)@.queue.push(Message::NewJob(t)),
                    next_ticket: old(self)@.next_ticket + 1,
                    ..old(self)@
                })
            },
    {
        if self.shutting_down {
            return Err(SubmitError::ShutDown);
        }
        if self.next_ticket == u64::MAX {
            return Err(SubmitError::TicketsExhausted);
        }
        let t = self.next_ticket;
        proof {
            lemma_count_none(self@.workers, |s: WorkerState| is_exited(s));
            assert(self@.queue =~= job_range(self@.dispatched, self@.next_ticket));
        }
        self.queue.push_back(Message::NewJob(t));
        self.next_ticket = t + 1;
        proof {
            assert(self@.queue =~= job_range(self@.dispatched, self@.next_ticket) + terminates(0));
            assert(self@.queue =~= job_range(self@.dispatched, self@.next_ticket));
        }
        Ok(t)
    }


    /// The dequeue step of worker `id`'s loop: it takes the message at the
    /// front of the queue, if there is one. A `NewJob` makes the worker busy
    /// with that job; a `Terminate` makes it leave its loop; an empty queue
    /// leaves everything as it was and the worker waits.
    pub fn next_step(&mut self, id: usize) -> (r: Step)
        requires
            old(self).wf(),
            id < old(self)@.workers.len(),
            old(self)@.workers[id as int].state == WorkerState::Idle,
        ensures
            final(self).wf(),
            old(self)@.queue.len() == 0 ==> r == Step::Wait && final(self)@ == old(self)@,
            old(self)@.queue.len() > 0 ==> final(self)@.queue == old(self)@.queue.drop_first(),
            old(self)@.queue.len() > 0 && old(self)@.queue[0] is NewJob ==> {
                &&& old(self)@.queue[0] == Message::NewJob(old(self)@.dispatched as u64)
                &&& r == Step::Run(old(self)@.dispatched as u64)
                &&& final(self)@ == (PoolView {
                    workers: old(self)@.workers.update(
                        id as int,
                        Worker { id, state: WorkerState::Busy(r->Run_0) },
                    ),
                    queue: old(self)@.queue.drop_first(),
                    dispatched: old(self)@.dispatched + 1,
                    ..old(self)@
                })
            },
            old(self)@.queue.len() > 0 && old(self)@.queue[0] is Terminate ==> {
                &&& r == Step::Exit
                &&& final(self)@ == (PoolView {
                    workers: old(self)@.workers.update(
                        id as int,
                        Worker { id, state: WorkerState::Exited },
                    ),
                    queue: old(self)@.queue.drop_first(),
                    ..old(self)@
                })
            },
    {
        let ghost pre = self@;
        match self.queue.pop_front() {
            None => Step::Wait,
            Some(Message::NewJob(t)) => {
                proof {
                    if pre.dispatched == pre.next_ticket {
                        assert(pre.queue[0] == terminates(pre.not_exited())[0]);
                    }
                    assert(pre.queue[0] == job_range(pre.dispatched, pre.next_ticket)[0]);
                }
                let w = Worker { id, state: WorkerState::Busy(t) };
                self.workers.set(id, w);
                self.dispatched = self.dispatched + 1;
                proof {
                    let e = |s: WorkerState| is_exited(s);
                    let b = |s: WorkerState| is_busy(s);
                    let f = |s: WorkerState| is_faulted(s);
                    lemma_count_update(pre.workers, id as int, w, e);
                    lemma_count_update(pre.workers, id as int, w, b);
                    lemma_count_update(pre.workers, id as int, w, f);
                    let k = if pre.shutting_down {
                        pre.not_exited()
                    } else {
                        0
                    };
                    assert(self@.queue =~= job_range(self@.dispatched, self@.next_ticket)
                        + terminates(k));
                }
                Step::Run(t)
            },
            Some(Message::Terminate) => {
                proof {
                    if pre.dispatched < pre.next_ticket {
                        assert(pre.queue[0] == job_range(pre.dispatched, pre.next_ticket)[0]);
                    }
                    assert(pre.queue[0] == terminates(pre.not_exited())[0]);
                }
                let w = Worker { id, state: WorkerState::Exited };
                self.workers.set(id, w);
                proof {
                    let e = |s: WorkerState| is_exited(s);
                    let b = |s: WorkerState| is_busy(s);
                    let f = |s: WorkerState| is_faulted(s);
                    lemma_count_update(pre.workers, id as int, w, e);
                    lemma_count_update(pre.workers, id as int, w, b);
                    lemma_count_update(pre.workers, id as int, w, f);
                    lemma_count_bound(self@.workers, e);
                    assert(pre.dispatched == pre.next_ticket);
                    assert(pre.shutting_down);
                    assert(self@.not_exited() + 1 == pre.not_exited());
                    assert(self@.queue =~= job_range(self@.dispatched, self@.next_ticket)
                        + terminates(self@.not_exited()));
                }
                Step::Exit
            },
        }
    }


    /// Worker `id` reports that its job ran to completion; it goes back to
    /// waiting on the queue.
    pub fn finish_job(&mut self, id: usize)
        requires
            old(self).wf(),
            id < old(self)@.workers.len(),
            old(self)@.workers[id as int].state is Busy,
        ensures
            final(self).wf(),
            final(self)@ == (PoolView {
                workers: old(self)@.workers.update(id as int, Worker { id, state: WorkerState::Idle }),
                completed: old(self)@.completed + 1,
                ..old(self)@
            }),
    {
        let ghost pre = self@;
        let w = Worker { id, state: WorkerState::Idle };
        self.workers.set(id, w);
        proof {
            let e = |s: WorkerState| is_exited(s);
            let b = |s: WorkerState| is_busy(s);
            let f = |s: WorkerState| is_faulted(s);
            lemma_count_update(pre.workers, id as int, w, e);
            lemma_count_update(pre.workers, id as int, w, b);
            lemma_count_update(pre.workers, id as int, w, f);
        }
        self.completed = self.completed + 1;
    }

    /// Worker `id`'s job failed without recovering and took the worker's
    /// thread down with it. The worker leaves the pool's working set for
    /// good; the other workers and the queue are untouched.
    pub fn fault(&mut self, id: usize)
        requires
            old(self).wf(),
            id < old(self)@.workers.len(),
            old(self)@.workers[id as int].state is Busy,
        ensures
            final(self).wf(),
            final(self)@ == (PoolView {
                workers: old(self)@.workers.update(
                    id as int,
                    Worker { id, state: WorkerState::Faulted },
                ),
                faulted: old(self)@.faulted + 1,
                ..old(self)@
            }),
    {
        let ghost pre = self@;
        let w = Worker { id, state: WorkerState::Faulted };
        self.workers.set(id, w);
        proof {
            let e = |s: WorkerState| is_exited(s);
            let b = |s: WorkerState| is_busy(s);
            let f = |s: WorkerState| is_faulted(s);
            lemma_count_update(pre.workers, id as int, w, e);
            lemma_count_update(pre.workers, id as int, w, b);
            lemma_count_update(pre.workers, id as int, w, f);
        }
        self.faulted = self.faulted + 1;
    }

    /// Begins teardown: puts one `Terminate` per worker at the back of the
    /// queue, behind every job already submitted, and refuses jobs from then
    /// on. Teardown happens once; a second call changes nothing.
    pub fn shutdown(&mut self)
        requires
            old(self).wf(),
        ensures
            final(self).wf(),
            old(self)@.shutting_down ==> final(self)@ == old(self)@,
            !old(self)@.shutting_down ==> final(self)@ == (PoolView {
                queue: old(self)@.queue + terminates(old(self)@.workers.len()),
                shutting_down: true,
                ..old(self)@
            }),
    {
        if self.shutting_down {
            return;
        }
        let ghost pre = self@;
        proof {
            lemma_count_none(pre.workers, |s: WorkerState| is_exited(s));
            assert(pre.queue =~= job_range(pre.dispatched, pre.next_ticket));
        }
        let n = self.workers.len();
        let mut i: usize = 0;
        while i < n
            invariant
                i <= n,
                n == pre.workers.len(),
                self@ == (PoolView { queue: pre.queue + terminates(i as nat), ..pre }),
            decreases n - i,
        {
            self.queue.push_back(Message::Terminate);
            i = i + 1;
            proof {
                assert(self@.queue =~= pre.queue + terminates(i as nat));
            }
        }
        self.shutting_down = true;
        proof {
            assert(self@.queue =~= job_range(self@.dispatched, self@.next_ticket) + terminates(
                self@.not_exited(),
            ));
        }
    }


    /// The number of workers, fixed at construction.
    pub fn size(&self) -> (r: usize)
        ensures
            r == self@.workers.len(),
    {
        self.workers.len()
    }

    /// Worker `id` as it stands now.
    pub fn worker(&self, id: usize) -> (r: Worker)
        requires
            id < self@.workers.len(),
        ensures
            r == self@.workers[id as int],
    {
        self.workers[id]
    }

    /// Whether teardown has begun.
    pub fn is_shutting_down(&self) -> (r: bool)
        ensures
            r == self@.shutting_down,
    {
        self.shutting_down
    }

    /// The number of messages waiting in the queue.
    pub fn pending(&self) -> (r: usize)
        ensures
            r == self@.queue.len(),
    {
        self.queue.len()
    }

    /// The number of jobs submitted so far.
    pub fn submitted(&self) -> (r: u64)
        ensures
            r == self@.next_ticket,
    {
        self.next_ticket
    }

    /// The number of jobs that ran to completion.
    pub fn completed(&self) -> (r: u64)
        ensures
            r == self@.completed,
    {
        self.completed
    }

    /// The number of jobs that failed and took their worker down.
    pub fn faulted(&self) -> (r: u64)
        ensures
            r == self@.faulted,
    {
        self.faulted
    }

    /// Whether no worker runs its loop any more: each has exited or failed.
    pub fn all_stopped(&self) -> (r: bool)
        ensures
            r == forall|i: int|
                0 <= i < self@.workers.len() ==> !(#[trigger] self@.workers[i]).state.is_live(),
    {
        let n = self.workers.len();
        let mut i: usize = 0;
        while i < n
            invariant
                i <= n,
                n == self@.workers.len(),
                forall|j: int| 0 <= j < i ==> !(#[trigger] self@.workers[j]).state.is_live(),
            decreases n - i,
        {
            if self.workers[i].is_live() {
                return false;
            }
            i = i + 1;
        }
        true
    }

}

/// In every well-formed state the pool has its workers' identities
/// unique, and each one lies in `0..size`.
pub proof fn lemma_worker_ids_unique(p: PoolView)
    requires
        p.wf(),
    ensures
        forall|i: int| 0 <= i < p.workers.len() ==> 0 <= #[trigger] p.workers[i].id < p.workers.len(),
        forall|i: int, j: int|
            0 <= i < p.workers.len() && 0 <= j < p.workers.len() && i != j ==> #[trigger] p.workers[i].id
                != #[trigger] p.workers[j].id,
{
}

/// Every submitted job is accounted for exactly once: a ticket below
/// `dispatched` has been handed to a worker and is no longer queued, and
/// every other submitted ticket sits in the queue at exactly one place.
/// Since each dequeue hands out the ticket `dispatched` and then advances
/// it, no job is run twice and none is skipped.
pub proof fn lemma_each_job_once(p: PoolView, t: nat)
    requires
        p.wf(),
        t < p.next_ticket,
    ensures
        t < p.dispatched ==> forall|i: int| 0 <= i < p.queue.len() ==> #[trigger] p.queue[i]
            != Message::NewJob(t as u64),
        t >= p.dispatched ==> p.queue[t - p.dispatched] == Message::NewJob(t as u64),
        t >= p.dispatched ==> forall|i: int|
            0 <= i < p.queue.len() && #[trigger] p.queue[i] == Message::NewJob(t as u64) ==> i == t
                - p.dispatched,
{
    let jobs = job_range(p.dispatched, p.next_ticket);
    let k = if p.shutting_down {
        p.not_exited()
    } else {
        0
    };
    assert forall|i: int| 0 <= i < p.queue.len() && #[trigger] p.queue[i] is NewJob implies i
        < jobs.len() && p.queue[i] == Message::NewJob((p.dispatched + i) as u64) by {
        if i >= jobs.len() {
            assert(p.queue[i] == terminates(k)[i - jobs.len()]);
        }
    }
    if t >= p.dispatched {
        assert(p.queue[t - p.dispatched] == jobs[t - p.dispatched]);
    }
}

/// No job runs on two workers at once: busy workers hold distinct tickets,
/// each of a job already taken off the queue.
pub proof fn lemma_no_job_on_two_workers(p: PoolView, i: int, j: int)
    requires
        p.wf(),
        0 <= i < p.workers.len(),
        0 <= j < p.workers.len(),
        i != j,
        p.workers[i].state is Busy,
        p.workers[j].state is Busy,
    ensures
        p.workers[i].state != p.workers[j].state,
        p.workers[i].state->Busy_0 < p.dispatched,
        forall|k: int| 0 <= k < p.queue.len() ==> #[trigger] p.queue[k] != Message::NewJob(
            p.workers[i].state->Busy_0,
        ),
{
    lemma_each_job_once(p, p.workers[i].state->Busy_0 as nat);
}

/// Teardown drains the queue: once every worker has taken its `Terminate`,
/// every job submitted before teardown was handed out and ran to
/// completion, and nothing is left queued.
pub proof fn lemma_teardown_complete(p: PoolView)
    requires
        p.wf(),
        forall|i: int| 0 <= i < p.workers.len() ==> (#[trigger] p.workers[i]).state
            == WorkerState::Exited,
    ensures
        p.shutting_down,
        p.queue.len() == 0,
        p.dispatched == p.next_ticket,
        p.completed == p.next_ticket,
{
    lemma_count_all(p.workers, |s: WorkerState| is_exited(s));
    lemma_count_none(p.workers, |s: WorkerState| is_busy(s));
    lemma_count_none(p.workers, |s: WorkerState| is_faulted(s));
    assert(!(p.workers[0].state is Exited) ==> !p.shutting_down);
}

/// A job that fails takes down only its own worker: once every worker still
/// running has taken its `Terminate` (and at least one has), every other
/// job was handed out and ran to completion, so the number of completed jobs
/// is the number submitted less one per failed worker, and what is left in
/// the queue are the `Terminate`s of the failed workers.
pub proof fn lemma_fault_contained(p: PoolView, e: int)
    requires
        p.wf(),
        forall|i: int| 0 <= i < p.workers.len() ==> !(#[trigger] p.workers[i]).state.is_live(),
        0 <= e < p.workers.len(),
        p.workers[e].state == WorkerState::Exited,
    ensures
        p.dispatched == p.next_ticket,
        p.completed + p.faulted == p.next_ticket,
        p.faulted == count_where(p.workers, |s: WorkerState| is_faulted(s)),
        p.queue == terminates(p.faulted),
{
    let ex = |s: WorkerState| is_exited(s);
    let fa = |s: WorkerState| is_faulted(s);
    lemma_count_some(p.workers, ex, e);
    lemma_count_none(p.workers, |s: WorkerState| is_busy(s));
    lemma_count_split(p.workers);
    assert(p.queue =~= terminates(p.faulted));
}

/// Each worker that is not running its loop has either exited or failed.
proof fn lemma_count_split(ws: Seq<Worker>)
    requires
        forall|i: int| 0 <= i < ws.len() ==> !(#[trigger] ws[i]).state.is_live(),
    ensures
        count_where(ws, |s: WorkerState| is_exited(s)) + count_where(
            ws,
            |s: WorkerState| is_faulted(s),
        ) == ws.len(),
    decreases ws.len(),
{
    if ws.len() > 0 {
        lemma_count_split(ws.drop_last());
    }
}


} // verus!
