//! The failure taxonomy the vault's operations report.

use vstd::prelude::*;

verus! {

/// The failure taxonomy of the vault's fallible operations.
///
/// Every fallible operation returns a `Result` whose error pins down why the
/// operation was refused; refused operations leave the ledger untouched.
#[derive(Clone, Copy, Debug, PartialEq, Eq, Structural)]
pub enum VaultError {
    /// The caller lacks the privilege the operation demands.
    AuthorizationError,
    /// The operation was invoked in a state where it is not (or no longer)
    /// valid: claiming before activation, or with nothing allocated.
    PreconditionError,
    /// The caller's entitlement has already been released once.
    AlreadyClaimedError,
    /// The asset transfer gateway reported that the transfer did not happen.
    ExternalTransferFailure,
}

} // verus!
