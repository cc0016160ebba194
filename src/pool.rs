//! The worker pool's protocol. Workers share one FIFO queue of messages and
//! each message goes to exactly one worker. A worker runs each job it takes
//! and exits on the first stop signal it takes; stopping the pool queues one
//! stop signal per worker behind every job already submitted.

use vstd::prelude::*;
use vstd::set_lib::{lemma_int_range, lemma_map_size, lemma_subset_equality, set_int_range};

verus! {

/// A message on the pool's queue.
pub enum WorkerMessage<J> {
    START,
    JOB(J),
    STOP,
}

/// What a worker does with the message it took.
pub enum WorkerStep<J> {
    /// Report that it is running and wait for the next message.
    Announce,
    /// Run the job, then wait for the next message.
    Run(J),
    /// Exit.
    Exit,
}

/// The step a worker takes for `msg`.
pub fn worker_step<J>(msg: WorkerMessage<J>) -> (r: WorkerStep<J>)
    ensures
        match msg {
            WorkerMessage::START => r is Announce,
            WorkerMessage::JOB(j) => r == WorkerStep::Run(j),
            WorkerMessage::STOP => r is Exit,
        },
{
    match msg {
        WorkerMessage::START => WorkerStep::Announce,
        WorkerMessage::JOB(j) => WorkerStep::Run(j),
        WorkerMessage::STOP => WorkerStep::Exit,
    }
}

/// `n` stop signals.
pub open spec fn stops<J>(n: nat) -> Seq<WorkerMessage<J>> {
    Seq::new(n, |i: int| WorkerMessage::STOP)
}

/// The messages that stop a pool of `workers` workers: one stop signal each.
pub fn stop_messages<J>(workers: usize) -> (r: Vec<WorkerMessage<J>>)
    ensures
        r@ == stops::<J>(workers as nat),
{
    let mut out: Vec<WorkerMessage<J>> = Vec::new();
    let mut k: usize = 0;
    while k < workers
        invariant
            k <= workers,
            out@ == stops::<J>(k as nat),
        decreases workers - k,
    {
        out.push(WorkerMessage::STOP);
        k = k + 1;
        assert(out@ =~= stops::<J>(k as nat));
    }
    out
}

/// The queue after submitting `jobs` in order and then stopping `n` workers.
pub open spec fn submitted_then_stopped<J>(jobs: Seq<J>, n: nat) -> Seq<WorkerMessage<J>> {
    jobs.map_values(|j: J| WorkerMessage::JOB(j)) + stops::<J>(n)
}

/// `owner[i]` is the worker, among `n`, that took message `i` of `queue`; a
/// worker takes nothing after it took a stop signal.
pub open spec fn valid_delivery<J>(queue: Seq<WorkerMessage<J>>, owner: Seq<nat>, n: nat) -> bool {
    &&& owner.len() == queue.len()
    &&& forall|i: int| 0 <= i < owner.len() ==> owner[i] < n
    &&& forall|i: int, j: int|
        0 <= i < j < queue.len() && queue[i] is STOP ==> owner[i] != owner[j]
}

/// Worker `w` had taken a stop signal before message `i`.
pub open spec fn stopped_before<J>(queue: Seq<WorkerMessage<J>>, owner: Seq<nat>, w: nat, i: int) -> bool {
    exists|j: int| 0 <= j < i && queue[j] is STOP && owner[j] == w
}

/// Worker `w` took a stop signal from `queue`.
pub open spec fn took_stop<J>(queue: Seq<WorkerMessage<J>>, owner: Seq<nat>, w: nat) -> bool {
    exists|i: int| 0 <= i < owner.len() && queue[i] is STOP && owner[i] == w
}

/// Submitting jobs to a pool of `n` workers and then stopping it: each job is
/// taken by one worker, which is still running and so runs it, and every
/// one of the `n` workers takes a stop signal and exits.
pub proof fn lemma_stop_drains_pool<J>(jobs: Seq<J>, n: nat, owner: Seq<nat>)
    requires
        valid_delivery(submitted_then_stopped(jobs, n), owner, n),
    ensures
        forall|i: int|
            0 <= i < jobs.len() ==> submitted_then_stopped(jobs, n)[i] == WorkerMessage::JOB(jobs[i])
                && !stopped_before(submitted_then_stopped(jobs, n), owner, owner[i], i),
        forall|w: nat| w < n ==> #[trigger] took_stop(submitted_then_stopped(jobs, n), owner, w),
{
    let q = submitted_then_stopped(jobs, n);
    let k = jobs.len() as int;
    assert forall|i: int| 0 <= i < jobs.len() implies q[i] == WorkerMessage::JOB(jobs[i])
        && !stopped_before(q, owner, owner[i], i) by {
        if stopped_before(q, owner, owner[i], i) {
            let j = choose|j: int| 0 <= j < i && q[j] is STOP && owner[j] == owner[i];
            assert(q[j] == WorkerMessage::<J>::JOB(jobs[j]));
        }
    }
    let offsets = set_int_range(0, n as int);
    let f = |s: int| owner[k + s] as int;
    let taken = offsets.map(f);
    lemma_int_range(0, n as int);
    assert(vstd::relations::injective_on(f, offsets)) by {
        assert forall|a: int, b: int| offsets.contains(a) && offsets.contains(b) && f(a) == f(b)
            implies a == b by {
            if a < b {
                assert(q[k + a] is STOP);
            } else if b < a {
                assert(q[k + b] is STOP);
            }
        }
    }
    lemma_map_size(offsets, taken, f);
    assert(taken.subset_of(offsets)) by {
        assert forall|w: int| taken.contains(w) implies offsets.contains(w) by {
            let s = choose|s: int| offsets.contains(s) && f(s) == w;
            assert(owner[k + s] < n);
        }
    }
    lemma_subset_equality(taken, offsets);
    assert forall|w: nat| w < n implies #[trigger] took_stop(q, owner, w) by {
        assert(offsets.contains(w as int));
        assert(taken.contains(w as int));
        let s = choose|s: int| offsets.contains(s) && f(s) == w as int;
        assert(q[k + s] is STOP);
        assert(owner[k + s] == w);
    }
}

} // verus!
