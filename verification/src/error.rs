//! The error vocabulary of the custody engine.

use vstd::prelude::*;

verus! {

/// Everything a command or query can fail with.
///
/// Every failure aborts the whole invocation: a transition that returns
/// an error leaves the store exactly as it found it.
#[derive(Clone, Copy, Debug, PartialEq, Eq, Structural)]
pub enum ContractError {
    /// Generic validation or storage failure surfaced from the
    /// persistence substrate.
    Std,
    /// Wrong caller for an approve or cancel, or a cancellation
    /// attempted after an approval was recorded.
    Unauthorized,
    /// Unknown escrow identifier.
    EscrowNotFound,
    /// A mutation was attempted on a terminal record.
    EscrowCompleted,
    /// Zero or multi-denomination funding at creation.
    InsufficientFunds,
    /// Malformed beneficiary address.
    InvalidBeneficiary,
    /// Malformed approver address.
    InvalidApprover,
    /// A second approval by the same address.
    AlreadyApproved,
    /// Reserved: the engine does not raise this today; creators who are
    /// approvers may approve their own escrows.
    CannotSelfApprove,
    /// Reserved: release conditions not met.
    ConditionsNotMet,
}

} // verus!
