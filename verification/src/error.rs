//! The error type of the crate.

use vstd::prelude::*;

verus! {

/// What can go wrong around the runs of a target.
#[derive(Debug)]
pub enum Error {
    /// A text is not the number that was expected.
    Parse(String),
    /// A log entry lacks a field that its step needs.
    IncompleteLog,
    /// Any other failure.
    Unknown(String),
}

} // verus!
