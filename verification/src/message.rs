//! Messages carried by the dispatch channel.
//!
//! A message either asks the worker that dequeues it to run one job or to
//! terminate. Jobs are identified by the number the submitter hands in; the
//! closure a real message would carry is opaque to the protocol and stays
//! outside the library.

use vstd::prelude::*;

verus! {

/// One message of the dispatch channel: run a job, or terminate.
#[derive(Clone, Copy, Debug, PartialEq, Eq, Structural)]
pub enum Message {
    /// Run the job with this identifier.
    Run(usize),
    /// Stop the worker that dequeues this message.
    Terminate,
}

/// Whether a message carries a job.
pub open spec fn is_run(m: Message) -> bool {
    match m {
        Message::Run(_) => true,
        Message::Terminate => false,
    }
}

/// Whether a message is the terminate sentinel.
pub open spec fn is_terminate(m: Message) -> bool {
    match m {
        Message::Run(_) => false,
        Message::Terminate => true,
    }
}

/// The job a `Run` message carries (zero on the sentinel, which carries none).
pub open spec fn run_job(m: Message) -> usize {
    match m {
        Message::Run(j) => j,
        Message::Terminate => 0,
    }
}

/// The jobs of the `Run` messages of `s`, in order.
pub open spec fn runs_of(s: Seq<Message>) -> Seq<usize>
    decreases s.len(),
{
    if s.len() == 0 {
        Seq::empty()
    } else if is_run(s[0]) {
        seq![run_job(s[0])] + runs_of(s.drop_first())
    } else {
        runs_of(s.drop_first())
    }
}

/// How many terminate messages `s` holds.
pub open spec fn count_terminates(s: Seq<Message>) -> nat
    decreases s.len(),
{
    if s.len() == 0 {
        0
    } else {
        (if is_terminate(s[0]) {
            1nat
        } else {
            0nat
        }) + count_terminates(s.drop_first())
    }
}

/// Appending a `Run` message appends its job to the jobs of the queue.
pub proof fn lemma_runs_of_push_run(s: Seq<Message>, j: usize)
    ensures
        runs_of(s.push(Message::Run(j))) == runs_of(s).push(j),
    decreases s.len(),
{
    let t = s.push(Message::Run(j));
    assert(t.len() == s.len() + 1);
    assert(runs_of(Seq::<Message>::empty()) =~= Seq::<usize>::empty());
    if s.len() == 0 {
        assert(t[0] == Message::Run(j));
        assert(t.drop_first() =~= Seq::<Message>::empty());
        assert(runs_of(t) =~= runs_of(s).push(j));
    } else {
        assert(t[0] == s[0]);
        assert(t.drop_first() =~= s.drop_first().push(Message::Run(j)));
        lemma_runs_of_push_run(s.drop_first(), j);
        assert(runs_of(t) =~= runs_of(s).push(j));
    }
}

/// Appending a terminate message leaves the jobs of the queue unchanged.
pub proof fn lemma_runs_of_push_terminate(s: Seq<Message>)
    ensures
        runs_of(s.push(Message::Terminate)) == runs_of(s),
    decreases s.len(),
{
    let t = s.push(Message::Terminate);
    assert(t.len() == s.len() + 1);
    assert(runs_of(Seq::<Message>::empty()) =~= Seq::<usize>::empty());
    if s.len() == 0 {
        assert(t[0] == Message::Terminate);
        assert(t.drop_first() =~= Seq::<Message>::empty());
    } else {
        assert(t[0] == s[0]);
        assert(t.drop_first() =~= s.drop_first().push(Message::Terminate));
        lemma_runs_of_push_terminate(s.drop_first());
        if is_run(s[0]) {
            assert(runs_of(t) =~= runs_of(s));
        }
    }
}

/// Appending a `Run` message does not change the terminate count.
pub proof fn lemma_count_push_run(s: Seq<Message>, j: usize)
    ensures
        count_terminates(s.push(Message::Run(j))) == count_terminates(s),
    decreases s.len(),
{
    let t = s.push(Message::Run(j));
    assert(t.len() == s.len() + 1);
    assert(count_terminates(Seq::<Message>::empty()) == 0);
    if s.len() == 0 {
        assert(t[0] == Message::Run(j));
        assert(t.drop_first() =~= Seq::<Message>::empty());
    } else {
        assert(t[0] == s[0]);
        assert(t.drop_first() =~= s.drop_first().push(Message::Run(j)));
        lemma_count_push_run(s.drop_first(), j);
    }
}

/// Appending a terminate message raises the terminate count by one.
pub proof fn lemma_count_push_terminate(s: Seq<Message>)
    ensures
        count_terminates(s.push(Message::Terminate)) == count_terminates(s) + 1,
    decreases s.len(),
{
    let t = s.push(Message::Terminate);
    assert(t.len() == s.len() + 1);
    assert(count_terminates(Seq::<Message>::empty()) == 0);
    if s.len() == 0 {
        assert(t[0] == Message::Terminate);
        assert(t.drop_first() =~= Seq::<Message>::empty());
    } else {
        assert(t[0] == s[0]);
        assert(t.drop_first() =~= s.drop_first().push(Message::Terminate));
        lemma_count_push_terminate(s.drop_first());
    }
}

/// A queue whose last message is a terminate holds at least one terminate.
pub proof fn lemma_count_last_terminate(s: Seq<Message>)
    requires
        s.len() > 0,
        is_terminate(s.last()),
    ensures
        count_terminates(s) >= 1,
    decreases s.len(),
{
    if s.len() == 1 {
        assert(s[0] == s.last());
    } else {
        assert(s.drop_first().last() == s.last());
        lemma_count_last_terminate(s.drop_first());
    }
}

} // verus!
