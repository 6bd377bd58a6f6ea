//! Hooks that follow a task through its life in a thread pool.
use std::sync::Arc;

use vstd::prelude::*;

verus! {

/// Tracks tasks throughout their lifecycle in the thread pool.
pub trait TaskInstrumentation: Send + Sync {
    /// Called when a task is added to the queue. Use guards in the
    /// EnqueuedTask implementation to track how long it stays there.
    fn enqueue(&self) -> (task: Enqueued);

    /// Called when a task is scheduled in a scoped batch. Scheduling is
    /// different from the default spawn approach and we might want to track it
    /// separately.
    fn enqueue_scoped(&self) -> (task: Enqueued)
        default_ensures
            call_ensures(Self::enqueue, (self,), task),
    {
        self.enqueue()
    }
}

/// Represents a task that has been enqueued but not yet executed. It is dropped
/// when the task starts running.
pub trait EnqueuedTask: Send {
    /// Called when the task starts running.
    fn run(self: Box<Self>) -> (running: Running);

    /// Called when the task is scheduled in a scoped batch. Scheduling is
    /// different from the default spawn approach and we might want to track it
    /// separately.
    fn run_scoped(self: Box<Self>) -> (running: Running)
        default_ensures
            call_ensures(Self::run, (self,), running),
    {
        self.run()
    }
}

/// Represents a task that is currently running. It is dropped when the task
/// finishes.
pub trait RunningTask {

}

/// An enqueued task of any kind.
pub struct Enqueued(pub Box<dyn EnqueuedTask>);

/// A running task of any kind.
pub struct Running(pub Box<dyn RunningTask>);

/// A value that several owners share.
pub struct Shared<T: ?Sized>(pub Arc<T>);

impl<T: ?Sized> Clone for Shared<T> {
    fn clone(&self) -> (copy: Self)
        ensures
            copy == *self,
    {
        Shared(self.0.clone())
    }
}

} // verus!
