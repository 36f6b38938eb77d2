//! A multi-party escrow custody library.
//!
//! A creator deposits a single fungible asset amount earmarked for a
//! beneficiary; release of the asset is gated by a quorum of designated
//! approvers. The crate owns the escrow lifecycle state machine, the
//! address-based secondary indexes, and the paginated query projections
//! over them. The host that persists state, validates bech32 addresses
//! and settles transfers sits outside; it hands this library plain
//! values and receives plain values back.

pub mod addr;
pub mod engine;
pub mod error;
pub mod index;
pub mod laws;
pub mod msg;
pub mod pagination;
pub mod query;
pub mod state;
pub mod store;
