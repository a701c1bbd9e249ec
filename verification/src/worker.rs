//! Workers and their state machine.
//!
//! A worker is one persistent thread: it sits idle blocked on the shared
//! channel, runs each job it dequeues to completion, and stops when it
//! dequeues a terminate message. A job that faults kills its worker, which
//! then never returns to the channel. The model keeps, per worker, the jobs
//! it completed (in the order it ran them) and whether its thread handle has
//! been taken for the one permitted join.

use vstd::multiset::Multiset;
use vstd::prelude::*;

verus! {

/// The lifecycle state of a worker thread.
#[derive(Clone, Copy, Debug, PartialEq, Eq, Structural)]
pub enum WorkerStatus {
    /// Blocked on the shared channel, ready to dequeue.
    Idle,
    /// Dequeued a terminate message; its thread function has returned.
    Stopped,
    /// A job faulted while it ran; the thread died and will never dequeue
    /// again.
    Faulted,
}

/// What a worker does with one dequeued message.
#[derive(Clone, Copy, Debug, PartialEq, Eq, Structural)]
pub enum WorkerAction {
    /// Run this job to completion, then return to the channel.
    Execute(usize),
    /// Leave the dequeue loop; the thread function returns.
    Stop,
}

/// One worker of the pool.
pub struct Worker {
    /// The worker's index in the pool's collection.
    pub id: usize,
    /// Where the worker stands in its lifecycle.
    pub status: WorkerStatus,
    /// Whether the thread handle has been taken for its single join.
    pub handle_taken: bool,
    /// The jobs this worker completed, in the order it ran them.
    pub completed: Vec<usize>,
}

impl Worker {
    /// A freshly spawned worker: idle on the channel, handle still held,
    /// nothing run yet.
    pub fn new(id: usize) -> (w: Worker)
        ensures
            w.id == id,
            w.status == WorkerStatus::Idle,
            !w.handle_taken,
            w.completed@ == Seq::<usize>::empty(),
    {
        Worker { id, status: WorkerStatus::Idle, handle_taken: false, completed: Vec::new() }
    }
}

/// Whether a worker has stopped.
pub open spec fn is_stopped(w: Worker) -> bool {
    w.status == WorkerStatus::Stopped
}

/// How many workers of `ws` have stopped.
pub open spec fn num_stopped(ws: Seq<Worker>) -> nat
    decreases ws.len(),
{
    if ws.len() == 0 {
        0
    } else {
        num_stopped(ws.drop_last()) + (if is_stopped(ws.last()) {
            1nat
        } else {
            0nat
        })
    }
}

/// All the jobs the workers of `ws` completed, as a multiset: execution
/// order across workers is not defined, only who ran what.
pub open spec fn completed_total(ws: Seq<Worker>) -> Multiset<usize>
    decreases ws.len(),
{
    if ws.len() == 0 {
        Multiset::empty()
    } else {
        completed_total(ws.drop_last()).add(ws.last().completed@.to_multiset())
    }
}

/// No worker of `ws` has faulted.
pub open spec fn no_faulted(ws: Seq<Worker>) -> bool {
    forall|i: int| 0 <= i < ws.len() ==> (#[trigger] ws[i]).status != WorkerStatus::Faulted
}

/// Replacing one worker changes the stopped count exactly by how the
/// replacement's stopped-ness differs from the replaced one's.
pub proof fn lemma_num_stopped_update(ws: Seq<Worker>, w: int, nw: Worker)
    requires
        0 <= w < ws.len(),
    ensures
        num_stopped(ws.update(w, nw)) + (if is_stopped(ws[w]) {
            1nat
        } else {
            0nat
        }) == num_stopped(ws) + (if is_stopped(nw) {
            1nat
        } else {
            0nat
        }),
    decreases ws.len(),
{
    let us = ws.update(w, nw);
    if w == ws.len() - 1 {
        assert(us.drop_last() =~= ws.drop_last());
        assert(us.last() == nw);
    } else {
        assert(us.drop_last() =~= ws.drop_last().update(w, nw));
        assert(us.last() == ws.last());
        lemma_num_stopped_update(ws.drop_last(), w, nw);
    }
}

/// Replacing one worker by one that completed the same jobs leaves the
/// completed total unchanged.
pub proof fn lemma_completed_total_same(ws: Seq<Worker>, w: int, nw: Worker)
    requires
        0 <= w < ws.len(),
        nw.completed@ == ws[w].completed@,
    ensures
        completed_total(ws.update(w, nw)) == completed_total(ws),
    decreases ws.len(),
{
    let us = ws.update(w, nw);
    if w == ws.len() - 1 {
        assert(us.drop_last() =~= ws.drop_last());
        assert(us.last() == nw);
    } else {
        assert(us.drop_last() =~= ws.drop_last().update(w, nw));
        assert(us.last() == ws.last());
        lemma_completed_total_same(ws.drop_last(), w, nw);
    }
}

/// Replacing one worker by one that completed one more job inserts exactly
/// that job into the completed total.
pub proof fn lemma_completed_total_push(ws: Seq<Worker>, w: int, nw: Worker, j: usize)
    requires
        0 <= w < ws.len(),
        nw.completed@ == ws[w].completed@.push(j),
    ensures
        completed_total(ws.update(w, nw)) == completed_total(ws).insert(j),
    decreases ws.len(),
{
    broadcast use vstd::seq_lib::group_to_multiset_ensures;

    let us = ws.update(w, nw);
    if w == ws.len() - 1 {
        assert(us.drop_last() =~= ws.drop_last());
        assert(us.last() == nw);
        assert(nw.completed@.to_multiset() =~= ws.last().completed@.to_multiset().insert(j));
        assert(completed_total(us) =~= completed_total(ws).insert(j));
    } else {
        assert(us.drop_last() =~= ws.drop_last().update(w, nw));
        assert(us.last() == ws.last());
        lemma_completed_total_push(ws.drop_last(), w, nw, j);
        assert(completed_total(us) =~= completed_total(ws).insert(j));
    }
}

/// Where no worker has stopped, the stopped count is zero.
pub proof fn lemma_num_stopped_zero(ws: Seq<Worker>)
    requires
        forall|i: int| 0 <= i < ws.len() ==> !is_stopped(#[trigger] ws[i]),
    ensures
        num_stopped(ws) == 0,
    decreases ws.len(),
{
    if ws.len() > 0 {
        assert(ws.last() == ws[ws.len() - 1]);
        assert(forall|i: int|
            0 <= i < ws.drop_last().len() ==> #[trigger] ws.drop_last()[i] == ws[i]);
        lemma_num_stopped_zero(ws.drop_last());
    }
}

/// Where every worker has stopped, the stopped count is the worker count.
pub proof fn lemma_num_stopped_all(ws: Seq<Worker>)
    requires
        forall|i: int| 0 <= i < ws.len() ==> is_stopped(#[trigger] ws[i]),
    ensures
        num_stopped(ws) == ws.len(),
    decreases ws.len(),
{
    if ws.len() > 0 {
        assert(ws.last() == ws[ws.len() - 1]);
        assert(forall|i: int|
            0 <= i < ws.drop_last().len() ==> #[trigger] ws.drop_last()[i] == ws[i]);
        lemma_num_stopped_all(ws.drop_last());
    }
}

/// The stopped count never exceeds the worker count.
pub proof fn lemma_num_stopped_le(ws: Seq<Worker>)
    ensures
        num_stopped(ws) <= ws.len(),
    decreases ws.len(),
{
    if ws.len() > 0 {
        lemma_num_stopped_le(ws.drop_last());
    }
}

/// Where the stopped count equals the worker count, every worker stopped.
pub proof fn lemma_num_stopped_full(ws: Seq<Worker>)
    requires
        num_stopped(ws) == ws.len(),
    ensures
        forall|i: int| 0 <= i < ws.len() ==> is_stopped(#[trigger] ws[i]),
    decreases ws.len(),
{
    if ws.len() > 0 {
        lemma_num_stopped_le(ws.drop_last());
        lemma_num_stopped_full(ws.drop_last());
        assert(is_stopped(ws.last()));
        assert(forall|i: int|
            0 <= i < ws.len() - 1 ==> #[trigger] ws[i] == ws.drop_last()[i]);
    }
}

/// Where no worker faulted and not all have stopped, some worker is idle.
pub proof fn lemma_exists_idle(ws: Seq<Worker>)
    requires
        no_faulted(ws),
        num_stopped(ws) < ws.len(),
    ensures
        exists|i: int| 0 <= i < ws.len() && (#[trigger] ws[i]).status == WorkerStatus::Idle,
{
    if forall|i: int| 0 <= i < ws.len() ==> (#[trigger] ws[i]).status != WorkerStatus::Idle {
        assert(forall|i: int| 0 <= i < ws.len() ==> is_stopped(#[trigger] ws[i])) by {
            assert forall|i: int| 0 <= i < ws.len() implies is_stopped(#[trigger] ws[i]) by {
                assert(ws[i].status != WorkerStatus::Idle);
                assert(ws[i].status != WorkerStatus::Faulted);
            }
        }
        lemma_num_stopped_all(ws);
        assert(false);
    }
}

/// All the jobs a collection of fresh workers completed: none.
pub proof fn lemma_completed_total_empty(ws: Seq<Worker>)
    requires
        forall|i: int| 0 <= i < ws.len() ==> (#[trigger] ws[i]).completed@.len() == 0,
    ensures
        completed_total(ws) == Multiset::<usize>::empty(),
    decreases ws.len(),
{
    broadcast use vstd::seq_lib::group_to_multiset_ensures;

    if ws.len() > 0 {
        assert(forall|i: int|
            0 <= i < ws.drop_last().len() ==> #[trigger] ws.drop_last()[i] == ws[i]);
        lemma_completed_total_empty(ws.drop_last());
        assert(ws.last() == ws[ws.len() - 1]);
        let m = ws.last().completed@.to_multiset();
        assert(m.len() == 0);
        vstd::multiset::lemma_multiset_empty_len(m);
        assert(completed_total(ws) =~= Multiset::empty());
    }
}

} // verus!
