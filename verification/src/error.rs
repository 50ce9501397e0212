use vstd::prelude::*;

verus! {

/// Failure kinds of the stream replay core.
///
/// `UnexpectedEof` marks a byte source that ended in the middle of a value;
/// the driver treats end-of-stream at a frame boundary as a clean stop
/// instead. `InvalidData` marks malformed input or a state-machine
/// violation, with a short static reason.
#[derive(Debug, Clone, Copy, PartialEq, Eq)]
pub enum ParseError {
    UnexpectedEof,
    InvalidData(&'static str),
}

impl ParseError {
    /// True for the end-of-source failure kind.
    pub open spec fn is_eof(self) -> bool {
        self is UnexpectedEof
    }

    /// True for the malformed-data failure kind.
    pub open spec fn is_invalid(self) -> bool {
        self is InvalidData
    }

    /// The reason text, usable by callers for diagnostics.
    pub fn describe(&self) -> (r: &'static str) {
        match self {
            ParseError::UnexpectedEof => "unexpected end of stream",
            ParseError::InvalidData(reason) => reason,
        }
    }
}

} // verus!
