//! A fixed-size worker pool, modelled and verified at the level of its
//! dispatch protocol.
//!
//! A pool owns the sending end of a dispatch channel and a fixed set of
//! workers; each worker repeatedly dequeues a message and either runs the
//! job it carries or stops. Because the workers share one receiving end
//! behind a mutex, every dequeue is serialized: the whole concurrent history
//! linearizes into a single sequence of sends and receives. That linearized
//! protocol is what this crate states and proves: jobs are delivered in
//! submission order, each exactly once to exactly one worker; teardown sends
//! one terminate message per worker, each of which stops exactly one worker,
//! and joins every worker exactly once.
//!
//! The threads themselves, and the closures the real messages carry, live
//! outside the verified library; the library supplies the protocol state,
//! its invariants, and the per-message decision a worker takes.

pub mod channel;
pub mod message;
pub mod pool;
pub mod worker;

pub use channel::Channel;
pub use message::Message;
pub use pool::ThreadPool;
pub use pool::step_decision;
pub use worker::Worker;
pub use worker::WorkerAction;
pub use worker::WorkerStatus;
