//! Errors raised by the library.
use vstd::prelude::*;

verus! {

/// A fatal condition of a pipeline stage.
pub enum LibError {
    /// An invariant of the pipeline was violated; the text says which.
    Critical(String),
    /// A binary record ended before its announced length.
    UnexpectedEof,
}

} // verus!
