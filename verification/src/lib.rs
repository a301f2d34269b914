//! A fixed-size worker pool, stated as a verified state machine, together with
//! the small HTTP vocabulary of the server that feeds it.
//!
//! The pool's bookkeeping lives here: which worker is idle, which task is
//! pending, which worker may claim what, and when a worker may stop. Threads,
//! locks and sockets belong to the program built around this crate.

pub mod guarantees;
pub mod http;
pub mod model;
pub mod pool;
pub mod queue;
pub mod safety;
pub mod worker;

pub use pool::ThreadPool;
