//! The failures that resolving and invoking the engine can end in.
use vstd::prelude::*;

verus! {

/// A classified failure, each carrying a message that can be shown as it is.
#[derive(Debug)]
pub enum EngineError {
    /// No candidate directory holds an `engine` directory.
    DirectoryNotFound(String),
    /// The engine process could not be started.
    LaunchFailure(String),
    /// The engine process exited with a nonzero status.
    ExecutionFailure(String),
    /// The engine exited successfully but its standard output is not UTF-8.
    OutputDecodeFailure(String),
}

impl EngineError {
    /// The message that the error carries.
    pub open spec fn text(&self) -> Seq<char> {
        match self {
            EngineError::DirectoryNotFound(m) => m@,
            EngineError::LaunchFailure(m) => m@,
            EngineError::ExecutionFailure(m) => m@,
            EngineError::OutputDecodeFailure(m) => m@,
        }
    }

    /// The human-readable message, whatever the kind of failure.
    pub fn message(&self) -> (r: String)
        ensures
            r@ == self.text(),
    {
        match self {
            EngineError::DirectoryNotFound(m) => m.clone(),
            EngineError::LaunchFailure(m) => m.clone(),
            EngineError::ExecutionFailure(m) => m.clone(),
            EngineError::OutputDecodeFailure(m) => m.clone(),
        }
    }
}

} // verus!
