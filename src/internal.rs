//! The outcome of a parser: a match with the remaining input, or a failure.
use vstd::prelude::*;

verus! {

/// How much more data a streaming parser would need to decide.
#[derive(Debug, Clone, Copy, PartialEq, Eq, Structural)]
pub enum Needed {
    /// The amount is not known.
    Unknown,
    /// At least this many more elements are needed.
    Size(usize),
}

/// The three ways a parser can fail.
#[derive(Debug, Clone, PartialEq)]
pub enum ErrMode<E> {
    /// Not enough data to decide (only produced by streaming parsers).
    Incomplete(Needed),
    /// A recoverable error: a sibling alternative may be tried.
    Error(E),
    /// An unrecoverable failure: no alternative may be tried.
    Failure(E),
}

/// `Ok((remaining, output))` on success, `Err(failure)` otherwise.
pub type IResult<I, O, E> = Result<(I, O), ErrMode<E>>;

} // verus!
