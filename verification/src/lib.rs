//! Runs tasks in the calling thread or in a thread pool.
//!
//! An [`Executor`] maps a function over a batch of arguments, or runs one task and hands out a
//! future of its reply. Whatever the executor, the results of a batch come in the order of the
//! arguments. [`TaskInstrumentation`] follows the tasks of a pool from the queue to their end.
pub mod blocking;
mod channel;
pub mod error;
pub mod executor;
pub mod fruits;
pub mod instrumentation;
pub mod laws;
pub mod map;
pub mod pool;
pub mod promise;
pub mod reply;
pub mod source;
pub mod ticket;
pub mod worker;

pub use error::{Result, TantivyError};
pub use executor::Executor;
pub use fruits::collect_fruits;
pub use instrumentation::{
    Enqueued, EnqueuedTask, Running, RunningTask, Shared, TaskInstrumentation,
};
pub use pool::{pool_of, thread_name};
pub use reply::outcome;
