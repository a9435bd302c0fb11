//! What the caller reports of a request that it made.

use vstd::prelude::*;

verus! {

/// What became of a request.
#[derive(Debug, PartialEq, Eq)]
pub enum Transfer {
    /// The page arrived.
    Body(String),
    /// The time allowed ran out first.
    TimedOut,
    /// The transfer failed otherwise.
    Failed,
}

} // verus!
