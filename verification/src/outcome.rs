//! How a computation on stored bytes ends: with a value, with an error
//! message, or at a point where it cannot go on (an index outside the
//! bytes, an arithmetic overflow).
use vstd::prelude::*;

verus! {

/// Why a checked computation stopped.
#[derive(Debug)]
pub enum Halt {
    /// The bytes do not allow the computation to go on.
    Panic,
    /// The computation rejected its input with this message.
    Error(String),
}

/// What a computation on stored bytes gives.
pub enum Outcome<T> {
    Panic,
    Error(Seq<char>),
    Done(T),
}

} // verus!
