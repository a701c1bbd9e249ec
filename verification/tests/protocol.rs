use threadpool::Channel;
use threadpool::Message;
use threadpool::ThreadPool;
use threadpool::WorkerAction;
use threadpool::WorkerStatus;
use threadpool::pool::step_decision;

#[test]
fn pool_has_requested_size() {
    let pool = ThreadPool::new(5);
    assert_eq!(pool.size(), 5);
    for w in 0..5 {
        assert_eq!(pool.worker_status(w), WorkerStatus::Idle);
        assert!(!pool.worker_joined(w));
        assert!(pool.worker_completed(w).is_empty());
    }
    assert_eq!(pool.queued(), 0);
    assert!(!pool.is_shutdown());
}

#[test]
fn submissions_queue_in_order() {
    let mut pool = ThreadPool::new(1);
    pool.execute(3);
    pool.execute(1);
    pool.execute(2);
    assert_eq!(pool.queued(), 3);
    assert_eq!(pool.worker_step(0), Message::Run(3));
    assert_eq!(pool.worker_step(0), Message::Run(1));
    assert_eq!(pool.worker_step(0), Message::Run(2));
    assert_eq!(pool.queued(), 0);
}

#[test]
fn each_message_dequeued_at_most_once() {
    let mut pool = ThreadPool::new(2);
    pool.execute(7);
    pool.execute(8);
    let first = pool.worker_step(0);
    assert_eq!(first, Message::Run(7));
    assert_eq!(pool.queued(), 1);
    let second = pool.worker_step(1);
    assert_eq!(second, Message::Run(8));
    assert_eq!(pool.queued(), 0);
    assert_eq!(pool.worker_completed(0).as_slice(), &[7]);
    assert_eq!(pool.worker_completed(1).as_slice(), &[8]);
}

#[test]
fn step_decision_runs_the_job() {
    assert_eq!(step_decision(Message::Run(42)), WorkerAction::Execute(42));
}

#[test]
fn step_decision_stops_the_worker() {
    assert_eq!(step_decision(Message::Terminate), WorkerAction::Stop);
}

#[test]
fn four_jobs_on_two_workers_all_complete() {
    let mut pool = ThreadPool::new(2);
    for job in 0..4 {
        pool.execute(job);
    }
    pool.teardown();
    let mut all: Vec<usize> = Vec::new();
    all.extend(pool.worker_completed(0).iter().copied());
    all.extend(pool.worker_completed(1).iter().copied());
    all.sort();
    assert_eq!(all, vec![0, 1, 2, 3]);
}

#[test]
fn single_worker_runs_jobs_sequentially() {
    let mut pool = ThreadPool::new(1);
    pool.execute(50);
    pool.execute(51);
    pool.teardown();
    assert_eq!(pool.worker_completed(0).as_slice(), &[50, 51]);
    assert_eq!(pool.worker_status(0), WorkerStatus::Stopped);
    assert!(pool.worker_joined(0));
}

#[test]
fn teardown_of_idle_pool_runs_nothing() {
    let mut pool = ThreadPool::new(3);
    pool.teardown();
    assert!(pool.is_shutdown());
    assert_eq!(pool.queued(), 0);
    for w in 0..3 {
        assert_eq!(pool.worker_status(w), WorkerStatus::Stopped);
        assert!(pool.worker_joined(w));
        assert!(pool.worker_completed(w).is_empty());
    }
}

#[test]
fn teardown_joins_every_worker() {
    let mut pool = ThreadPool::new(4);
    pool.execute(9);
    pool.teardown();
    for w in 0..4 {
        assert_eq!(pool.worker_status(w), WorkerStatus::Stopped);
        assert!(pool.worker_joined(w));
    }
}

#[test]
fn jobs_run_before_teardown_still_counted() {
    let mut pool = ThreadPool::new(2);
    pool.execute(1);
    let m = pool.worker_step(0);
    assert_eq!(m, Message::Run(1));
    pool.execute(2);
    pool.teardown();
    let mut all: Vec<usize> = Vec::new();
    all.extend(pool.worker_completed(0).iter().copied());
    all.extend(pool.worker_completed(1).iter().copied());
    all.sort();
    assert_eq!(all, vec![1, 2]);
}

#[test]
fn one_terminate_is_sent_per_worker() {
    let mut pool = ThreadPool::new(3);
    pool.send_terminates();
    assert!(pool.is_shutdown());
    assert_eq!(pool.queued(), 3);
    for w in 0..3 {
        assert_eq!(pool.worker_step(w), Message::Terminate);
        assert_eq!(pool.worker_status(w), WorkerStatus::Stopped);
    }
    assert_eq!(pool.queued(), 0);
}

#[test]
fn faulted_worker_strands_one_terminate() {
    let mut pool = ThreadPool::new(2);
    pool.execute(100);
    let m = pool.fault_step(0);
    assert_eq!(m, Message::Run(100));
    assert_eq!(pool.worker_status(0), WorkerStatus::Faulted);
    assert!(pool.worker_completed(0).is_empty());

    // The pool silently lost one worker; later jobs still complete on the
    // survivor.
    for job in 1..=5 {
        pool.execute(job);
    }
    for _ in 0..5 {
        assert!(matches!(pool.worker_step(1), Message::Run(_)));
    }
    assert_eq!(pool.worker_completed(1).as_slice(), &[1, 2, 3, 4, 5]);

    // Teardown sends two terminates, but only the survivor can consume one:
    // the other is stranded in the queue, and the faulted worker can never
    // be joined — the join phase would hang on it.
    pool.send_terminates();
    assert_eq!(pool.queued(), 2);
    assert_eq!(pool.worker_step(1), Message::Terminate);
    assert_eq!(pool.worker_status(1), WorkerStatus::Stopped);
    assert_eq!(pool.queued(), 1);
    pool.join_worker(1);
    assert!(pool.worker_joined(1));
    assert!(!pool.worker_joined(0));
    assert_eq!(pool.worker_status(0), WorkerStatus::Faulted);
}

#[test]
fn racing_submissions_run_the_same_jobs_either_way() {
    let mut first = ThreadPool::new(2);
    first.execute(8);
    first.execute(9);
    first.teardown();
    let mut second = ThreadPool::new(2);
    second.execute(9);
    second.execute(8);
    second.teardown();
    let mut ran_first: Vec<usize> = Vec::new();
    let mut ran_second: Vec<usize> = Vec::new();
    for w in 0..2 {
        ran_first.extend(first.worker_completed(w).iter().copied());
        ran_second.extend(second.worker_completed(w).iter().copied());
    }
    ran_first.sort();
    ran_second.sort();
    assert_eq!(ran_first, ran_second);
    assert_eq!(ran_first, vec![8, 9]);
}

#[test]
fn channel_delivers_in_send_order() {
    let mut ch = Channel::new();
    assert!(ch.is_empty());
    ch.send(Message::Run(1));
    ch.send(Message::Terminate);
    ch.send(Message::Run(2));
    assert_eq!(ch.len(), 3);
    assert_eq!(ch.recv(), Message::Run(1));
    assert_eq!(ch.recv(), Message::Terminate);
    assert_eq!(ch.recv(), Message::Run(2));
    assert!(ch.is_empty());
}

#[test]
fn fresh_worker_is_idle() {
    let w = threadpool::Worker::new(3);
    assert_eq!(w.id, 3);
    assert_eq!(w.status, WorkerStatus::Idle);
    assert!(!w.handle_taken);
    assert!(w.completed.is_empty());
}
