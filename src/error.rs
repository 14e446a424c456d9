use vstd::prelude::*;

verus! {

/// Why a decode failed. Each variant carries the byte offset at which the
/// failing field or section started.
#[derive(Debug, Clone, Copy, PartialEq, Eq, Structural)]
pub enum ParsingError {
    /// Fewer than `needed` bytes remain after `offset`.
    InsufficientBuffer { offset: usize, needed: usize },
    /// The bytes of a terminated text field are not valid UTF-8.
    InvalidText { offset: usize },
    /// No zero byte follows `offset` before the buffer ends.
    MissingTerminator { offset: usize },
    /// The section at `offset` has no known layout in the chosen encoding.
    UnspecifiedSchema { offset: usize },
}

/// A decode result seen through the views of its value, with the offset
/// after the decoded item as an integer.
pub open spec fn decoded<T: View>(r: Result<(T, usize), ParsingError>) -> Result<(T::V, int), ParsingError> {
    match r {
        Ok((v, next)) => Ok((v@, next as int)),
        Err(e) => Err(e),
    }
}

/// The two encodings of the schema.
#[derive(Debug, Clone, Copy, PartialEq, Eq, Structural)]
pub enum Encoding {
    /// Every field sits in a slot of constant width; arrays fill the rest of
    /// the buffer.
    FixedStride,
    /// Text ends at a zero byte; arrays end at the first element that fails.
    Streaming,
}

} // verus!
