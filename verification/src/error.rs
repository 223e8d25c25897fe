//! The error of the library: a reason in words.
use vstd::prelude::*;

verus! {

/// Why a call failed.
#[derive(Debug)]
pub struct Error {
    pub reason: String,
}

/// What the calls of the library return.
pub type DbNativeResult<T> = Result<T, Error>;

/// An error with the given reason.
pub fn state_error(message: &str) -> (r: Error)
    ensures
        r.reason@ == message@,
{
    Error { reason: message.to_owned() }
}

} // verus!
