//! The reset procedure's decision.
//!
//! Resetting the target directory to its last committed state is one hard
//! reset run by the version-control tool; the driver runs it and reports
//! the exit status here. The decision is all-or-nothing: a successful
//! status means the tree was restored, any other status is fatal and is
//! never retried or downgraded.

use vstd::prelude::*;

verus! {

/// Why the reset procedure aborted.
#[derive(PartialEq, Eq, Debug)]
pub enum ResetError {
    /// The hard reset ran but reported failure.
    ResetFailed,
}

/// Decides the outcome of the reset procedure from the exit status of the
/// hard reset: success exactly when the tool reported success, and the
/// fatal error otherwise.
pub fn reset_outcome(status_ok: bool) -> (r: Result<(), ResetError>)
    ensures
        r is Ok <==> status_ok,
        !status_ok ==> r == Err::<(), ResetError>(ResetError::ResetFailed),
{
    if status_ok {
        Ok(())
    } else {
        Err(ResetError::ResetFailed)
    }
}

} // verus!
