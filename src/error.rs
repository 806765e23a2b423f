use vstd::prelude::*;

verus! {

/// The failures that the engine reports.
#[derive(Debug, Clone, Copy, PartialEq, Eq, Structural)]
pub enum EngineError {
    /// A required id is missing or zero, or a value is malformed.
    InvalidArgument,
    /// No journey, route, booking or other record matches the request.
    NotFound,
    /// The record would duplicate one that already exists.
    Conflict,
    /// The store could not complete the operation.
    StorageFailure,
}

impl EngineError {
    /// The HTTP status that reports this error.
    pub open spec fn spec_status_code(self) -> u16 {
        match self {
            EngineError::InvalidArgument => 400,
            EngineError::NotFound => 404,
            EngineError::Conflict => 409,
            EngineError::StorageFailure => 500,
        }
    }

    pub fn status_code(&self) -> (r: u16)
        ensures
            r == self.spec_status_code(),
    {
        match self {
            EngineError::InvalidArgument => 400,
            EngineError::NotFound => 404,
            EngineError::Conflict => 409,
            EngineError::StorageFailure => 500,
        }
    }
}

} // verus!
