//! The outcome part of a response: success, or an error with its message.

use vstd::prelude::*;

verus! {

/// Whether a request succeeded.
#[derive(Debug)]
pub enum Status {
    /// It succeeded.
    Success,
    /// It failed, for the reason given.
    Error(String),
}

} // verus!
