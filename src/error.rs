//! Errors of the data model's fallible constructors.
use vstd::prelude::*;

verus! {

/// Errors raised while building the data model's values from their parts.
#[derive(Clone, Copy, Debug, PartialEq, Eq, Structural)]
pub enum ParseError {
    /// A timestamp's nanosecond part lies outside `0 .. 1_000_000_000`.
    Timestamp,
    /// A signed header came without its header.
    MissingHeader,
    /// A signed header came without its commit.
    MissingCommit,
}

} // verus!
