//! The errors a transcript session can report.

use vstd::prelude::*;

verus! {

/// Why a call on a pattern or on a transcript session was refused.
#[derive(Clone, Copy, Debug, PartialEq, Eq, Structural)]
pub enum IOPatternError {
    /// A step with a count of zero was offered to a pattern under construction.
    EmptyStep,
    /// The operation, or its length, is not what the declared pattern expects next.
    PatternMismatch,
    /// The verifier asked for more bytes than the transcript still holds.
    EndOfTranscript,
    /// The bytes read do not encode a unit.
    MalformedUnit,
}

impl IOPatternError {
    /// A short description of the error.
    pub fn message(&self) -> (s: String)
        ensures
            s@ == (match *self {
                IOPatternError::EmptyStep => "a step must move at least one unit"@,
                IOPatternError::PatternMismatch => "operation does not match the declared pattern"@,
                IOPatternError::EndOfTranscript => "the transcript ended too early"@,
                IOPatternError::MalformedUnit => "the bytes do not encode a unit"@,
            }),
    {
        match self {
            IOPatternError::EmptyStep => "a step must move at least one unit".to_string(),
            IOPatternError::PatternMismatch => "operation does not match the declared pattern".to_string(),
            IOPatternError::EndOfTranscript => "the transcript ended too early".to_string(),
            IOPatternError::MalformedUnit => "the bytes do not encode a unit".to_string(),
        }
    }
}

} // verus!
