use vstd::prelude::*;

verus! {

/// Everything that can go wrong between a captured image and a committed
/// move. Each variant names the stage that failed; none is ever swallowed
/// silently, and any of them ends the autoplay session.
#[derive(Clone, Copy, PartialEq, Eq, Structural, Debug)]
pub enum ChustError {
    /// The inference oracle call itself failed.
    DetectionFailure,
    /// No board-marker detection was present where one was required.
    NoBoardFound,
    /// A square name handed to the square-to-point mapper was malformed.
    InvalidSquare,
    /// The engine subprocess ended or never produced an expected token.
    EngineProtocolFailure,
    /// Screen capture or click injection failed.
    CollaboratorFailure,
}

impl ChustError {
    /// The stage that failed, worded for an error report.
    pub fn message(&self) -> (r: String)
        ensures
            r@ == match *self {
                ChustError::DetectionFailure => "Detection failed"@,
                ChustError::NoBoardFound => "Board not found"@,
                ChustError::InvalidSquare => "Invalid square"@,
                ChustError::EngineProtocolFailure => "Engine protocol failed"@,
                ChustError::CollaboratorFailure => "Capture or actuation failed"@,
            },
    {
        match self {
            ChustError::DetectionFailure => "Detection failed".to_owned(),
            ChustError::NoBoardFound => "Board not found".to_owned(),
            ChustError::InvalidSquare => "Invalid square".to_owned(),
            ChustError::EngineProtocolFailure => "Engine protocol failed".to_owned(),
            ChustError::CollaboratorFailure => "Capture or actuation failed".to_owned(),
        }
    }
}

} // verus!
