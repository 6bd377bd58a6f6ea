//! The errors of the library.
use vstd::prelude::*;

verus! {

/// What can go wrong while tasks are handed out and run.
#[derive(Debug)]
pub enum TantivyError {
    /// A request to the operating system failed.
    SystemError(String),
    /// Something that should never happen happened.
    InternalError(String),
}

/// The outcome of a task, and of a batch of tasks.
pub type Result<T> = std::result::Result<T, TantivyError>;

} // verus!
