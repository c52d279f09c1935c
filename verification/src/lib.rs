//! A milestone escrow between a client and a freelancer.
//!
//! A client opens a contract with a list of milestone amounts, funds it, and
//! releases the milestones one by one or several at a time.  Either party, or
//! an arbiter, can cancel it within the limits of their role; the client can
//! hand their side over to another address; and an administrator governs the
//! protocol fee.
//!
//! The crate holds the decisions and the bookkeeping.  Reading and writing the
//! ledger, checking signatures and publishing events is the work of whoever
//! embeds it: an entry point takes the stored state as [`Escrow`] and the facts
//! of the running call as [`Invocation`], and leaves behind the state to write
//! back and the events to publish.

pub mod accounts;
pub mod governance;
pub mod host;
pub mod laws;
pub mod lifecycle;
pub mod migration;
pub mod payouts;
pub mod release;
pub mod rules;
pub mod state;
pub mod store;
pub mod types;

pub use crate::state::{Escrow, EscrowState};
pub use crate::store::Store;
pub use crate::types::{
    ContractStatus, EscrowBounds, EscrowContractData, EscrowError, Event, Invocation,
    LedgerPolicy, Milestone, PendingAdminProposal, PendingApproval, PendingClientMigration,
    PendingMigration, ReleaseAuthorization, Trap, MAINNET_MAX_TOTAL_ESCROW_PER_CONTRACT_STROOPS,
    MAINNET_PROTOCOL_VERSION, MAX_MILESTONES, MAX_TOTAL_ESCROW_STROOPS,
};
