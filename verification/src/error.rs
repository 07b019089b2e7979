use vstd::prelude::*;

verus! {

/// The way a single pipe segment failed to parse.
#[derive(Debug, Clone, Copy, PartialEq, Eq, Structural)]
pub enum SegFault {
    /// The segment holds no token at all (empty or only whitespace).
    EmptySegment,
    /// A double quote was opened and never closed.
    UnterminatedQuote,
    /// A backslash stood at the very end of the segment with nothing to escape.
    TrailingEscape,
}

/// A parse failure, carrying the offending segment text.
#[derive(Debug, Clone, PartialEq, Eq)]
pub struct ParseFault {
    pub kind: SegFault,
    pub segment: String,
}

/// Everything that can go wrong while building or running a pipeline.
///
/// A stage exiting with a non-zero status is not an error: it is a normal,
/// representable `Output`.
#[derive(Debug, PartialEq, Eq)]
pub enum APipeError {
    /// The pipe-description text could not be parsed.
    Parse(ParseFault),
    /// The operating system could not start a stage's process.
    ProcessStart { stage: usize, program: String, source: String },
    /// A started process could not be waited on or reaped.
    ProcessWait { source: String },
    /// Output was requested but no process has been run.
    NoActiveProcess,
}

} // verus!
