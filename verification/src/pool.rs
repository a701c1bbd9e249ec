//! The pool: construction, submission, dispatch, and teardown.
//!
//! `ThreadPool` is the protocol state of the whole pool: the shared channel,
//! the workers, and ghost logs of what was submitted, what was delivered,
//! and what was lost to faulting jobs. Every public operation preserves the
//! well-formedness invariant `wf`, whose heart is conservation: the
//! submitted jobs are exactly the delivered jobs followed by those still
//! queued, and the delivered jobs are exactly those the workers completed
//! plus those that faulted — nothing lost, nothing duplicated.
//!
//! In the running system each worker owns a thread that loops over
//! `worker_step` by itself; here the steps are explicit, which linearizes
//! the history the real pool would produce under the channel's mutex.

use vstd::prelude::*;

use crate::channel::Channel;
use crate::message::Message;
use crate::message::count_terminates;
use crate::message::is_run;
use crate::message::is_terminate;
use crate::message::lemma_count_last_terminate;
use crate::message::lemma_count_push_run;
use crate::message::lemma_count_push_terminate;
use crate::message::lemma_runs_of_push_run;
use crate::message::lemma_runs_of_push_terminate;
use crate::message::run_job;
use crate::message::runs_of;
use crate::worker::Worker;
use crate::worker::WorkerAction;
use crate::worker::WorkerStatus;
use crate::worker::completed_total;
use crate::worker::is_stopped;
use crate::worker::lemma_completed_total_empty;
use crate::worker::lemma_completed_total_push;
use crate::worker::lemma_completed_total_same;
use crate::worker::lemma_exists_idle;
use crate::worker::lemma_num_stopped_full;
use crate::worker::lemma_num_stopped_update;
use crate::worker::lemma_num_stopped_zero;
use crate::worker::no_faulted;
use crate::worker::num_stopped;

verus! {

/// A fixed-size worker pool: the workers, the dispatch channel they share,
/// and the ghost history of the jobs that passed through.
pub struct ThreadPool {
    /// The workers, in spawn order; `workers[i].id == i`, and the count is
    /// fixed at construction.
    pub workers: Vec<Worker>,
    /// The shared dispatch channel.
    pub channel: Channel,
    /// Whether teardown has begun (the terminate messages were sent).
    pub shutdown_started: bool,
    /// Every job ever submitted, in submission order.
    pub submitted: Ghost<Seq<usize>>,
    /// Every job ever dequeued by a worker, in dequeue order.
    pub delivered: Ghost<Seq<usize>>,
    /// The jobs whose execution faulted, killing their worker.
    pub faulted_jobs: Ghost<Seq<usize>>,
    /// How many terminate messages were ever sent.
    pub terminates_sent: Ghost<nat>,
}

impl ThreadPool {
    /// The pool's invariant, preserved by every operation.
    pub open spec fn wf(self) -> bool {
        // A pool has at least one worker, each knowing its index, and a
        // thread handle is taken only once its worker has stopped.
        &&& self.workers@.len() >= 1
        &&& forall|i: int|
            0 <= i < self.workers@.len() ==> (#[trigger] self.workers@[i]).id == i
        &&& forall|i: int|
            0 <= i < self.workers@.len() ==> ((#[trigger] self.workers@[i]).handle_taken
                ==> self.workers@[i].status == WorkerStatus::Stopped)
        // Job conservation: submitted = delivered, then still queued; and
        // delivered = completed somewhere, plus faulted.
        &&& self.submitted@ == self.delivered@ + runs_of(self.channel@)
        &&& self.delivered@.to_multiset() == completed_total(self.workers@).add(
            self.faulted_jobs@.to_multiset(),
        )
        // Terminate conservation: each terminate sent is still queued or has
        // stopped exactly one worker; none is sent before teardown, and
        // teardown sends exactly one per worker.
        &&& count_terminates(self.channel@) + num_stopped(self.workers@)
            == self.terminates_sent@
        &&& self.terminates_sent@ == if self.shutdown_started {
            self.workers@.len() as nat
        } else {
            0nat
        }
        // After teardown begins, the queue ends in a terminate message.
        &&& self.shutdown_started ==> (self.channel@.len() > 0 ==> is_terminate(
            self.channel@.last(),
        ))
    }

    /// Create a pool of exactly `size` workers, all idle on a fresh shared
    /// channel. A pool of zero workers is meaningless; asking for one is a
    /// caller error, fatal at the boundary that enforces this precondition.
    pub fn new(size: usize) -> (pool: ThreadPool)
        requires
            size > 0,
        ensures
            pool.wf(),
            pool.workers@.len() == size,
            forall|i: int|
                0 <= i < size ==> (#[trigger] pool.workers@[i]).status == WorkerStatus::Idle,
            forall|i: int| 0 <= i < size ==> !(#[trigger] pool.workers@[i]).handle_taken,
            forall|i: int|
                0 <= i < size ==> (#[trigger] pool.workers@[i]).completed@.len() == 0,
            pool.channel@.len() == 0,
            pool.submitted@ == Seq::<usize>::empty(),
            pool.delivered@ == Seq::<usize>::empty(),
            pool.faulted_jobs@ == Seq::<usize>::empty(),
            pool.terminates_sent@ == 0,
            !pool.shutdown_started,
    {
        let mut workers: Vec<Worker> = Vec::new();
        let mut id: usize = 0;
        while id < size
            invariant
                id <= size,
                workers@.len() == id,
                forall|i: int| 0 <= i < id ==> (#[trigger] workers@[i]).id == i,
                forall|i: int|
                    0 <= i < id ==> (#[trigger] workers@[i]).status == WorkerStatus::Idle,
                forall|i: int| 0 <= i < id ==> !(#[trigger] workers@[i]).handle_taken,
                forall|i: int| 0 <= i < id ==> (#[trigger] workers@[i]).completed@.len() == 0,
            decreases size - id,
        {
            workers.push(Worker::new(id));
            id = id + 1;
        }
        let pool = ThreadPool {
            workers,
            channel: Channel::new(),
            shutdown_started: false,
            submitted: Ghost(Seq::empty()),
            delivered: Ghost(Seq::empty()),
            faulted_jobs: Ghost(Seq::empty()),
            terminates_sent: Ghost(0nat),
        };
        proof {
            lemma_num_stopped_zero(pool.workers@);
            lemma_completed_total_empty(pool.workers@);
            vstd::multiset::lemma_multiset_empty_len(pool.delivered@.to_multiset());
            vstd::multiset::lemma_multiset_empty_len(pool.faulted_jobs@.to_multiset());
            assert(pool.delivered@.to_multiset().len() == 0) by {
                broadcast use vstd::seq_lib::group_to_multiset_ensures;

            }
            assert(pool.faulted_jobs@.to_multiset().len() == 0) by {
                broadcast use vstd::seq_lib::group_to_multiset_ensures;

            }
            assert(pool.delivered@.to_multiset() =~= completed_total(pool.workers@).add(
                pool.faulted_jobs@.to_multiset(),
            )) by {
                broadcast use vstd::multiset::group_multiset_axioms;

            }
            assert(pool.submitted@ =~= pool.delivered@ + runs_of(pool.channel@));
        }
        pool
    }

    /// Submit one job: enqueue a `Run` message carrying it. Fire-and-forget
    /// and non-blocking; no result comes back. Submission after teardown has
    /// begun is a caller error and excluded here.
    pub fn execute(&mut self, job: usize)
        requires
            old(self).wf(),
            !old(self).shutdown_started,
        ensures
            final(self).wf(),
            !final(self).shutdown_started,
            final(self).channel@ == old(self).channel@.push(Message::Run(job)),
            final(self).submitted@ == old(self).submitted@.push(job),
            final(self).workers@ == old(self).workers@,
            final(self).delivered@ == old(self).delivered@,
            final(self).faulted_jobs@ == old(self).faulted_jobs@,
            final(self).terminates_sent@ == old(self).terminates_sent@,
    {
        self.channel.send(Message::Run(job));
        proof {
            self.submitted@ = self.submitted@.push(job);
            lemma_runs_of_push_run(old(self).channel@, job);
            lemma_count_push_run(old(self).channel@, job);
            assert(self.submitted@ =~= self.delivered@ + runs_of(self.channel@));
        }
    }

    /// One worker's turn at the shared channel: take the mutex, dequeue the
    /// oldest message, and act on it. A `Run` message is executed to
    /// completion on that worker alone; a terminate message stops the worker.
    /// The message leaves the queue, so it is delivered at most — and here
    /// exactly — once.
    pub fn worker_step(&mut self, w: usize) -> (m: Message)
        requires
            old(self).wf(),
            w < old(self).workers@.len(),
            old(self).workers@[w as int].status == WorkerStatus::Idle,
            old(self).channel@.len() > 0,
        ensures
            final(self).wf(),
            m == old(self).channel@[0],
            final(self).channel@ == old(self).channel@.drop_first(),
            final(self).workers@.len() == old(self).workers@.len(),
            forall|i: int|
                0 <= i < old(self).workers@.len() && i != w ==> final(self).workers@[i]
                    == old(self).workers@[i],
            is_run(m) ==> {
                &&& final(self).workers@[w as int].status == WorkerStatus::Idle
                &&& final(self).workers@[w as int].completed@ == old(self).workers@[w as int].completed@.push(run_job(m))
                &&& final(self).delivered@ == old(self).delivered@.push(run_job(m))
            },
            is_terminate(m) ==> {
                &&& final(self).workers@[w as int].status == WorkerStatus::Stopped
                &&& final(self).workers@[w as int].completed@ == old(self).workers@[w as int].completed@
                &&& final(self).delivered@ == old(self).delivered@
            },
            final(self).workers@[w as int].id == old(self).workers@[w as int].id,
            final(self).workers@[w as int].handle_taken == old(self).workers@[w as int].handle_taken,
            final(self).submitted@ == old(self).submitted@,
            final(self).faulted_jobs@ == old(self).faulted_jobs@,
            final(self).terminates_sent@ == old(self).terminates_sent@,
            final(self).shutdown_started == old(self).shutdown_started,
    {
        let ghost pre = *self;
        let m = self.channel.recv();
        match m {
            Message::Run(j) => {
                let wk = worker_at(&mut self.workers, w);
                wk.completed.push(j);
                proof {
                    self.delivered@ = self.delivered@.push(j);
                    let ws = pre.workers@;
                    let nw = self.workers@[w as int];
                    lemma_completed_total_push(ws, w as int, nw, j);
                    lemma_num_stopped_update(ws, w as int, nw);
                    broadcast use vstd::seq_lib::group_to_multiset_ensures;

                    assert(self.delivered@.to_multiset() =~= completed_total(self.workers@).add(
                        self.faulted_jobs@.to_multiset(),
                    )) by {
                        broadcast use vstd::multiset::group_multiset_axioms;

                    }
                    assert(self.submitted@ =~= self.delivered@ + runs_of(self.channel@));
                    if pre.shutdown_started && self.channel@.len() > 0 {
                        assert(self.channel@.last() == pre.channel@.last());
                    }
                }
            },
            Message::Terminate => {
                let wk = worker_at(&mut self.workers, w);
                wk.status = WorkerStatus::Stopped;
                proof {
                    let ws = pre.workers@;
                    let nw = self.workers@[w as int];
                    lemma_completed_total_same(ws, w as int, nw);
                    lemma_num_stopped_update(ws, w as int, nw);
                    assert(self.submitted@ =~= self.delivered@ + runs_of(self.channel@));
                    if pre.shutdown_started && self.channel@.len() > 0 {
                        assert(self.channel@.last() == pre.channel@.last());
                    }
                }
            },
        }
        m
    }

    /// One worker's turn at the channel where the dequeued job faults as it
    /// runs. The message is still consumed exactly once, but the job never
    /// completes and its worker dies: it will not dequeue again, and its
    /// thread cannot be joined by the orderly teardown. The pool silently
    /// loses one worker's capacity — the known failure mode of this design.
    pub fn fault_step(&mut self, w: usize) -> (m: Message)
        requires
            old(self).wf(),
            w < old(self).workers@.len(),
            old(self).workers@[w as int].status == WorkerStatus::Idle,
            old(self).channel@.len() > 0,
            is_run(old(self).channel@[0]),
        ensures
            final(self).wf(),
            m == old(self).channel@[0],
            final(self).channel@ == old(self).channel@.drop_first(),
            final(self).workers@.len() == old(self).workers@.len(),
            forall|i: int|
                0 <= i < old(self).workers@.len() && i != w ==> final(self).workers@[i]
                    == old(self).workers@[i],
            final(self).workers@[w as int].status == WorkerStatus::Faulted,
            final(self).workers@[w as int].completed@ == old(self).workers@[w as int].completed@,
            final(self).workers@[w as int].id == old(self).workers@[w as int].id,
            final(self).workers@[w as int].handle_taken == old(self).workers@[w as int].handle_taken,
            final(self).delivered@ == old(self).delivered@.push(run_job(m)),
            final(self).faulted_jobs@ == old(self).faulted_jobs@.push(run_job(m)),
            final(self).submitted@ == old(self).submitted@,
            final(self).terminates_sent@ == old(self).terminates_sent@,
            final(self).shutdown_started == old(self).shutdown_started,
    {
        let ghost pre = *self;
        let m = self.channel.recv();
        let ghost j = run_job(m);
        let wk = worker_at(&mut self.workers, w);
        wk.status = WorkerStatus::Faulted;
        proof {
            self.delivered@ = self.delivered@.push(j);
            self.faulted_jobs@ = self.faulted_jobs@.push(j);
            let ws = pre.workers@;
            let nw = self.workers@[w as int];
            lemma_completed_total_same(ws, w as int, nw);
            lemma_num_stopped_update(ws, w as int, nw);
            broadcast use vstd::seq_lib::group_to_multiset_ensures;

            assert(self.delivered@.to_multiset() =~= completed_total(self.workers@).add(
                self.faulted_jobs@.to_multiset(),
            )) by {
                broadcast use vstd::multiset::group_multiset_axioms;

            }
            assert(self.submitted@ =~= self.delivered@ + runs_of(self.channel@));
            if pre.shutdown_started && self.channel@.len() > 0 {
                assert(self.channel@.last() == pre.channel@.last());
            }
        }
        m
    }
}

/// `n` terminate messages in a row.
pub open spec fn term_msgs(n: nat) -> Seq<Message> {
    Seq::new(n, |i: int| Message::Terminate)
}

impl ThreadPool {
    /// The first phase of teardown: send exactly one terminate message per
    /// worker, all before any join is attempted, so that no worker can be
    /// left blocked on the channel with nothing addressed to it.
    pub fn send_terminates(&mut self)
        requires
            old(self).wf(),
            !old(self).shutdown_started,
        ensures
            final(self).wf(),
            final(self).shutdown_started,
            final(self).channel@ == old(self).channel@ + term_msgs(old(self).workers@.len() as nat),
            final(self).terminates_sent@ == old(self).terminates_sent@ + old(self).workers@.len(),
            final(self).workers@ == old(self).workers@,
            final(self).submitted@ == old(self).submitted@,
            final(self).delivered@ == old(self).delivered@,
            final(self).faulted_jobs@ == old(self).faulted_jobs@,
    {
        let k = self.workers.len();
        let mut i: usize = 0;
        while i < k
            invariant
                i <= k,
                self.workers@ == old(self).workers@,
                k == old(self).workers@.len(),
                self.channel@ == old(self).channel@ + term_msgs(i as nat),
                count_terminates(self.channel@) == count_terminates(old(self).channel@) + i,
                runs_of(self.channel@) == runs_of(old(self).channel@),
                self.shutdown_started == old(self).shutdown_started,
                self.submitted == old(self).submitted,
                self.delivered == old(self).delivered,
                self.faulted_jobs == old(self).faulted_jobs,
                self.terminates_sent == old(self).terminates_sent,
            decreases k - i,
        {
            let ghost before = self.channel@;
            self.channel.send(Message::Terminate);
            proof {
                lemma_count_push_terminate(before);
                lemma_runs_of_push_terminate(before);
                assert(self.channel@ =~= old(self).channel@ + term_msgs((i + 1) as nat));
            }
            i = i + 1;
        }
        self.shutdown_started = true;
        proof {
            self.terminates_sent@ = self.terminates_sent@ + k as nat;
            assert(self.submitted@ =~= self.delivered@ + runs_of(self.channel@));
            assert(self.channel@.last() == Message::Terminate);
        }
    }

    /// The index of some idle worker: the next one to win the race for the
    /// channel's mutex.
    fn find_idle(&self) -> (w: usize)
        requires
            exists|i: int|
                0 <= i < self.workers@.len() && (#[trigger] self.workers@[i]).status
                    == WorkerStatus::Idle,
        ensures
            w < self.workers@.len(),
            self.workers@[w as int].status == WorkerStatus::Idle,
    {
        let n = self.workers.len();
        let mut i: usize = 0;
        while i < n
            invariant
                i <= n,
                n == self.workers@.len(),
                forall|j: int|
                    0 <= j < i ==> (#[trigger] self.workers@[j]).status != WorkerStatus::Idle,
                exists|j: int|
                    0 <= j < self.workers@.len() && (#[trigger] self.workers@[j]).status
                        == WorkerStatus::Idle,
            decreases n - i,
        {
            if matches!(self.workers[i].status, WorkerStatus::Idle) {
                return i;
            }
            i = i + 1;
        }
        proof {
            assert(false);
        }
        0
    }

    /// The dispatch that follows the terminate sends: the workers keep
    /// dequeuing — remaining jobs first, in order, then the terminates —
    /// until the queue is empty and every worker has stopped. This is the
    /// work the worker threads do on their own in the running system while
    /// teardown waits to join them; no fault may occur, or a message would
    /// be stranded (see `fault_step`).
    fn drain(&mut self)
        requires
            old(self).wf(),
            old(self).shutdown_started,
            no_faulted(old(self).workers@),
        ensures
            final(self).wf(),
            final(self).shutdown_started,
            final(self).channel@.len() == 0,
            final(self).workers@.len() == old(self).workers@.len(),
            forall|i: int|
                0 <= i < final(self).workers@.len() ==> (#[trigger] final(self).workers@[i]).status == WorkerStatus::Stopped,
            forall|i: int|
                0 <= i < final(self).workers@.len() ==> (#[trigger] final(self).workers@[i]).handle_taken == old(self).workers@[i].handle_taken,
            final(self).delivered@ == old(self).delivered@ + runs_of(old(self).channel@),
            final(self).submitted@ == old(self).submitted@,
            final(self).faulted_jobs@ == old(self).faulted_jobs@,
            final(self).terminates_sent@ == old(self).terminates_sent@,
    {
        while !self.channel.is_empty()
            invariant
                self.wf(),
                self.shutdown_started,
                no_faulted(self.workers@),
                self.workers@.len() == old(self).workers@.len(),
                forall|i: int|
                    0 <= i < self.workers@.len() ==> (#[trigger] self.workers@[i]).handle_taken
                        == old(self).workers@[i].handle_taken,
                self.delivered@ + runs_of(self.channel@) == old(self).delivered@ + runs_of(
                    old(self).channel@,
                ),
                self.submitted@ == old(self).submitted@,
                self.faulted_jobs@ == old(self).faulted_jobs@,
                self.terminates_sent@ == old(self).terminates_sent@,
            decreases self.channel@.len(),
        {
            proof {
                lemma_count_last_terminate(self.channel@);
                lemma_exists_idle(self.workers@);
            }
            let w = self.find_idle();
            let ghost pre = *self;
            let m = self.worker_step(w);
            proof {
                if is_run(m) {
                    assert(self.delivered@ + runs_of(self.channel@) =~= pre.delivered@ + runs_of(
                        pre.channel@,
                    ));
                } else {
                    assert(runs_of(pre.channel@) == runs_of(self.channel@));
                }
                assert(no_faulted(self.workers@)) by {
                    assert forall|i: int|
                        0 <= i < self.workers@.len() implies (#[trigger] self.workers@[i]).status
                        != WorkerStatus::Faulted by {
                        if i != w {
                            assert(self.workers@[i] == pre.workers@[i]);
                        }
                    }
                }
            }
        }
        proof {
            lemma_num_stopped_full(self.workers@);
            assert(runs_of(self.channel@) =~= Seq::<usize>::empty());
            assert(self.delivered@ =~= old(self).delivered@ + runs_of(old(self).channel@));
        }
    }

    /// Take a stopped worker's thread handle and join it. The handle leaves
    /// the worker, so a second join of the same worker is impossible: a
    /// running pool would guard the take-once handle at run time; here the
    /// guard is the precondition.
    pub fn join_worker(&mut self, w: usize)
        requires
            old(self).wf(),
            w < old(self).workers@.len(),
            old(self).workers@[w as int].status == WorkerStatus::Stopped,
            !old(self).workers@[w as int].handle_taken,
        ensures
            final(self).wf(),
            final(self).workers@.len() == old(self).workers@.len(),
            forall|i: int|
                0 <= i < old(self).workers@.len() && i != w ==> final(self).workers@[i]
                    == old(self).workers@[i],
            final(self).workers@[w as int] == (Worker {
                handle_taken: true,
                ..old(self).workers@[w as int]
            }),
            final(self).channel@ == old(self).channel@,
            final(self).submitted@ == old(self).submitted@,
            final(self).delivered@ == old(self).delivered@,
            final(self).faulted_jobs@ == old(self).faulted_jobs@,
            final(self).terminates_sent@ == old(self).terminates_sent@,
            final(self).shutdown_started == old(self).shutdown_started,
    {
        let ghost pre = *self;
        let wk = worker_at(&mut self.workers, w);
        wk.handle_taken = true;
        proof {
            let ws = pre.workers@;
            let nw = self.workers@[w as int];
            lemma_completed_total_same(ws, w as int, nw);
            lemma_num_stopped_update(ws, w as int, nw);
        }
    }

    /// The second phase of teardown: join every worker, in collection order,
    /// each exactly once.
    fn join_all(&mut self)
        requires
            old(self).wf(),
            forall|i: int|
                0 <= i < old(self).workers@.len() ==> (#[trigger] old(self).workers@[i]).status == WorkerStatus::Stopped,
            forall|i: int|
                0 <= i < old(self).workers@.len() ==> !(#[trigger] old(self).workers@[i]).handle_taken,
        ensures
            final(self).wf(),
            final(self).workers@.len() == old(self).workers@.len(),
            forall|i: int|
                0 <= i < final(self).workers@.len() ==> (#[trigger] final(self).workers@[i]).status == WorkerStatus::Stopped && final(self).workers@[i].handle_taken,
            final(self).channel@ == old(self).channel@,
            final(self).submitted@ == old(self).submitted@,
            final(self).delivered@ == old(self).delivered@,
            final(self).faulted_jobs@ == old(self).faulted_jobs@,
            final(self).terminates_sent@ == old(self).terminates_sent@,
            final(self).shutdown_started == old(self).shutdown_started,
    {
        let n = self.workers.len();
        let mut i: usize = 0;
        while i < n
            invariant
                i <= n,
                n == self.workers@.len(),
                self.wf(),
                forall|j: int|
                    0 <= j < n ==> (#[trigger] self.workers@[j]).status == WorkerStatus::Stopped,
                forall|j: int|
                    0 <= j < i ==> (#[trigger] self.workers@[j]).handle_taken,
                forall|j: int|
                    i <= j < n ==> !(#[trigger] self.workers@[j]).handle_taken,
                self.channel@ == old(self).channel@,
                self.submitted@ == old(self).submitted@,
                self.delivered@ == old(self).delivered@,
                self.faulted_jobs@ == old(self).faulted_jobs@,
                self.terminates_sent@ == old(self).terminates_sent@,
                self.shutdown_started == old(self).shutdown_started,
            decreases n - i,
        {
            self.join_worker(i);
            i = i + 1;
        }
    }

    /// Orderly teardown, run exactly once over the pool's life: send one
    /// terminate message per worker, let the workers finish every queued job
    /// and stop, then take each thread handle and join it. When no worker
    /// has faulted, it completes with every submitted job delivered exactly
    /// once, in submission order, every worker stopped, and every thread
    /// joined.
    pub fn teardown(&mut self)
        requires
            old(self).wf(),
            !old(self).shutdown_started,
            no_faulted(old(self).workers@),
        ensures
            final(self).wf(),
            final(self).shutdown_started,
            final(self).channel@.len() == 0,
            final(self).workers@.len() == old(self).workers@.len(),
            forall|i: int|
                0 <= i < final(self).workers@.len() ==> (#[trigger] final(self).workers@[i]).status == WorkerStatus::Stopped && final(self).workers@[i].handle_taken,
            final(self).terminates_sent@ == old(self).terminates_sent@ + old(self).workers@.len(),
            final(self).submitted@ == old(self).submitted@,
            final(self).delivered@ == old(self).submitted@,
            final(self).faulted_jobs@ == old(self).faulted_jobs@,
    {
        proof {
            // Before teardown no terminate was ever sent, so no worker has
            // stopped, and hence no handle was taken.
            lemma_no_stop_before_terminate(old(self).workers@, old(self).channel@);
        }
        let ghost entry = *self;
        self.send_terminates();
        proof {
            lemma_runs_of_concat_terms(entry.channel@, entry.workers@.len() as nat);
        }
        self.drain();
        self.join_all();
        proof {
            assert(self.delivered@ =~= entry.submitted@);
        }
    }
}

impl ThreadPool {
    /// How many workers the pool has; fixed at construction.
    pub fn size(&self) -> (n: usize)
        ensures
            n == self.workers@.len(),
    {
        self.workers.len()
    }

    /// How many messages are still queued.
    pub fn queued(&self) -> (n: usize)
        ensures
            n == self.channel@.len(),
    {
        self.channel.len()
    }

    /// Where one worker stands in its lifecycle.
    pub fn worker_status(&self, w: usize) -> (s: WorkerStatus)
        requires
            w < self.workers@.len(),
        ensures
            s == self.workers@[w as int].status,
    {
        self.workers[w].status
    }

    /// The jobs one worker completed, in the order it ran them.
    pub fn worker_completed(&self, w: usize) -> (jobs: &Vec<usize>)
        requires
            w < self.workers@.len(),
        ensures
            jobs@ == self.workers@[w as int].completed@,
    {
        &self.workers[w].completed
    }

    /// Whether one worker's thread handle has been taken and joined.
    pub fn worker_joined(&self, w: usize) -> (r: bool)
        requires
            w < self.workers@.len(),
        ensures
            r == self.workers@[w as int].handle_taken,
    {
        self.workers[w].handle_taken
    }

    /// Whether teardown has begun.
    pub fn is_shutdown(&self) -> (r: bool)
        ensures
            r == self.shutdown_started,
    {
        self.shutdown_started
    }
}

/// What a worker does with a dequeued message: run the job it carries, or
/// stop. This is the whole of a worker's per-message decision; the running
/// system's worker loop is this decision applied to each message in turn.
pub fn step_decision(m: Message) -> (a: WorkerAction)
    ensures
        is_run(m) ==> a == WorkerAction::Execute(run_job(m)),
        is_terminate(m) ==> a == WorkerAction::Stop,
{
    match m {
        Message::Run(j) => WorkerAction::Execute(j),
        Message::Terminate => WorkerAction::Stop,
    }
}

/// Job conservation. In every well-formed pool state, the submitted jobs
/// are exactly the delivered jobs — in submission order, since the channel
/// is FIFO and its one receiving end serializes every dequeue — followed by
/// the jobs still queued; and the delivered jobs are exactly the jobs the
/// workers completed, each on exactly one worker, plus the jobs lost to a
/// fault. No submission is ever lost or duplicated, however submissions and
/// dequeues interleave.
pub proof fn lemma_job_conservation(pool: ThreadPool)
    requires
        pool.wf(),
    ensures
        pool.submitted@ == pool.delivered@ + runs_of(pool.channel@),
        pool.delivered@.to_multiset() == completed_total(pool.workers@).add(
            pool.faulted_jobs@.to_multiset(),
        ),
{
}

/// Terminate conservation. In every well-formed pool state, every terminate
/// message ever sent is either still queued or has stopped exactly one
/// worker; none is sent before teardown begins, and teardown sends exactly
/// one per worker.
pub proof fn lemma_terminate_conservation(pool: ThreadPool)
    requires
        pool.wf(),
    ensures
        count_terminates(pool.channel@) + num_stopped(pool.workers@) == pool.terminates_sent@,
        pool.terminates_sent@ == if pool.shutdown_started {
            pool.workers@.len() as nat
        } else {
            0nat
        },
{
}

/// Each submission is accounted for in exactly one place. However many
/// times a job value `j` was submitted, exactly that many copies of it
/// exist across the workers' completed lists, the jobs lost to faults, and
/// the jobs still queued — each submission executes at most once, and
/// exactly once when no fault intervenes and the queue is drained.
pub proof fn lemma_each_job_exactly_once(pool: ThreadPool, j: usize)
    requires
        pool.wf(),
    ensures
        pool.submitted@.to_multiset().count(j) == completed_total(pool.workers@).count(j)
            + pool.faulted_jobs@.to_multiset().count(j) + runs_of(
            pool.channel@,
        ).to_multiset().count(j),
{
    broadcast use vstd::multiset::group_multiset_axioms;

    vstd::seq_lib::lemma_multiset_commutative(pool.delivered@, runs_of(pool.channel@));
}

/// Queue linearizability under concurrent submitters. Two submissions that
/// race arrive in one order or the other, and either way the queue holds
/// exactly the same jobs, each exactly once: the interleaving the channel
/// picks cannot lose or duplicate a submission.
pub proof fn lemma_concurrent_submissions_commute(s: Seq<Message>, a: usize, b: usize)
    ensures
        runs_of(s.push(Message::Run(a)).push(Message::Run(b))).to_multiset() == runs_of(
            s.push(Message::Run(b)).push(Message::Run(a)),
        ).to_multiset(),
{
    broadcast use vstd::seq_lib::group_to_multiset_ensures;

    lemma_runs_of_push_run(s, a);
    lemma_runs_of_push_run(s.push(Message::Run(a)), b);
    lemma_runs_of_push_run(s, b);
    lemma_runs_of_push_run(s.push(Message::Run(b)), a);
    let r = runs_of(s);
    assert(runs_of(s.push(Message::Run(a)).push(Message::Run(b))).to_multiset()
        =~= r.to_multiset().insert(a).insert(b));
    assert(runs_of(s.push(Message::Run(b)).push(Message::Run(a))).to_multiset()
        =~= r.to_multiset().insert(b).insert(a));
    assert(r.to_multiset().insert(a).insert(b) =~= r.to_multiset().insert(b).insert(a)) by {
        broadcast use vstd::multiset::group_multiset_axioms;

    }
}

/// Appending terminate messages leaves the jobs of a queue unchanged.
proof fn lemma_runs_of_concat_terms(s: Seq<Message>, n: nat)
    ensures
        runs_of(s + term_msgs(n)) == runs_of(s),
    decreases n,
{
    if n == 0 {
        assert(s + term_msgs(0) =~= s);
    } else {
        lemma_runs_of_concat_terms(s, (n - 1) as nat);
        assert(s + term_msgs(n) =~= (s + term_msgs((n - 1) as nat)).push(Message::Terminate));
        lemma_runs_of_push_terminate(s + term_msgs((n - 1) as nat));
    }
}

/// In a pool that has not begun teardown, no worker has stopped and no
/// handle has been taken.
proof fn lemma_no_stop_before_terminate(ws: Seq<Worker>, ch: Seq<Message>)
    requires
        count_terminates(ch) + num_stopped(ws) == 0,
        forall|i: int|
            0 <= i < ws.len() ==> ((#[trigger] ws[i]).handle_taken ==> ws[i].status
                == WorkerStatus::Stopped),
    ensures
        forall|i: int| 0 <= i < ws.len() ==> !is_stopped(#[trigger] ws[i]),
        forall|i: int| 0 <= i < ws.len() ==> !(#[trigger] ws[i]).handle_taken,
{
    assert forall|i: int| 0 <= i < ws.len() implies !is_stopped(#[trigger] ws[i]) by {
        if is_stopped(ws[i]) {
            lemma_num_stopped_pos(ws, i);
        }
    }
}

/// A stopped worker makes the stopped count positive.
proof fn lemma_num_stopped_pos(ws: Seq<Worker>, i: int)
    requires
        0 <= i < ws.len(),
        is_stopped(ws[i]),
    ensures
        num_stopped(ws) >= 1,
    decreases ws.len(),
{
    if i == ws.len() - 1 {
        assert(ws.last() == ws[i]);
    } else {
        assert(ws.drop_last()[i] == ws[i]);
        lemma_num_stopped_pos(ws.drop_last(), i);
    }
}

/// A mutable borrow of one worker of the pool's collection.
fn worker_at(ws: &mut Vec<Worker>, i: usize) -> (w: &mut Worker)
    requires
        i < old(ws).len(),
    ensures
        *w == old(ws)@[i as int],
        final(ws)@ == old(ws)@.update(i as int, *final(w)),
{
    &mut ws[i]
}

} // verus!

