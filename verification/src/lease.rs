//! Receive-token leases: the error a registry that cannot lease reports.
use vstd::prelude::*;
use crate::uci::KernelError;
use crate::error_codes::ERR_LEASE_FAILED;

verus! {

/// The error of a registry that has no lease support wired in.
pub fn lease_failed<T>() -> (r: Result<T, KernelError>)
    ensures
        r matches Err(e) && e == KernelError::Internal(ERR_LEASE_FAILED),
{
    Err(KernelError::Internal(ERR_LEASE_FAILED))
}

} // verus!
