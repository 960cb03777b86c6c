//! The error taxonomy shared by every vault operation.

use vstd::prelude::*;

verus! {

/// Every way a vault operation can fail. Errors are propagated verbatim to
/// the caller; no operation swallows or downgrades one.
#[derive(Clone, Copy, Debug, PartialEq, Eq, Structural)]
pub enum VaultError {
    /// A strict creation hit a key that already holds a vault.
    AlreadyInitialized,
    /// The vault is absent, not yet initialized, or already closed.
    NotFound,
    /// The derived identity does not match the expected derivation.
    AuthorityMismatch,
    /// The caller is not the vault's registered owner.
    Unauthorized,
    /// A withdrawal asked for more than the balance, or the external
    /// source reported too little to fund a deposit.
    InsufficientFunds,
    /// The computed skim amount of a self-contained withdrawal is zero.
    NothingToWithdraw,
    /// A deposit would push the balance past the 64-bit range.
    BalanceOverflow,
    /// A stored buffer is shorter than the schema demands.
    CorruptState,
}

} // verus!
