//! Inbound commands and queries, and the structured values they return.

use vstd::prelude::*;

use crate::state::Coin;

verus! {

/// The no-argument setup message; instantiation takes nothing else.
#[derive(Debug)]
pub struct InstantiateMsg {}

/// The caller of a command: its address and the funds it attached.
#[derive(Debug)]
pub struct MessageInfo {
    pub sender: String,
    pub funds: Vec<Coin>,
}

/// The closed union of state-mutating commands.
#[derive(Debug)]
pub enum ExecuteMsg {
    /// Create a new escrow with the attached funds.
    CreateEscrow {
        /// Address that will receive the funds when released.
        beneficiary: String,
        /// First approver address (usually the creator).
        approver1: String,
        /// Second approver address.
        approver2: String,
        /// Optional third party approver address.
        approver3: Option<String>,
        /// Description of the escrow conditions.
        description: String,
    },
    /// Approve the release of funds for a specific escrow.
    ApproveRelease {
        /// ID of the escrow to approve.
        escrow_id: u64,
    },
    /// Cancel an escrow (only the creator, and only before any approval).
    CancelEscrow {
        /// ID of the escrow to cancel.
        escrow_id: u64,
    },
}

/// The closed union of read-only queries.
#[derive(Debug)]
pub enum QueryMsg {
    /// Get details of a specific escrow.
    GetEscrow { escrow_id: u64 },
    /// Get all escrows for a specific address, in any of the three roles.
    GetEscrowsByAddress { address: String, start_after: Option<u64>, limit: Option<u32> },
    /// Get all escrows, paginated in ascending identifier order.
    GetAllEscrows { start_after: Option<u64>, limit: Option<u32> },
}

/// The message of the version-stamping maintenance call.
#[derive(Debug)]
pub struct MigrateMsg {}

/// An asset-transfer instruction handed to the settlement layer.
#[derive(Debug)]
pub struct BankTransfer {
    pub to_address: String,
    pub amount: Coin,
}

/// The structured acknowledgment a command returns.
#[derive(Debug)]
pub enum Response {
    /// Acknowledges `CreateEscrow`; no transfer happens at creation.
    Created {
        escrow_id: u64,
        creator: String,
        beneficiary: String,
        amount: Coin,
        description: String,
    },
    /// Acknowledges `ApproveRelease`; carries the transfer instruction
    /// exactly when this approval reached quorum.
    Approved {
        escrow_id: u64,
        approver: String,
        total_approvals: u64,
        released: bool,
        transfer: Option<BankTransfer>,
    },
    /// Acknowledges `CancelEscrow`; always carries the refund instruction.
    Cancelled { escrow_id: u64, refunded_to: String, transfer: BankTransfer },
}

/// A single escrow, as a query projects it.
#[derive(Debug)]
pub struct EscrowResponse {
    pub id: u64,
    pub creator: String,
    pub beneficiary: String,
    pub amount: Coin,
    pub approver1: String,
    pub approver2: String,
    pub approver3: Option<String>,
    pub description: String,
    pub approvals: Vec<String>,
    pub is_completed: bool,
    pub created_at: u64,
    pub completed_at: Option<u64>,
}

/// A page of escrow projections.
#[derive(Debug)]
pub struct EscrowListResponse {
    pub escrows: Vec<EscrowResponse>,
}

/// What a query returns: one record, or one page of records.
#[derive(Debug)]
pub enum QueryAnswer {
    Escrow(EscrowResponse),
    List(EscrowListResponse),
}

} // verus!
