//! The records, statuses, errors and events of the escrow.

use soroban_sdk::{Address, BytesN};
use vstd::prelude::*;

use crate::host::same_address;

verus! {

/// Maximum number of milestones allowed per contract.
pub const MAX_MILESTONES: u32 = 10;

/// Hard cap on the total escrow value per contract, in stroops (7 decimal
/// places): one million tokens.
pub const MAX_TOTAL_ESCROW_STROOPS: i128 = 10_000_000_000_000;

/// Version of the protocol that runs on the main network.
pub const MAINNET_PROTOCOL_VERSION: u32 = 1;

/// Cap that the main network publishes for the value locked in one contract.
pub const MAINNET_MAX_TOTAL_ESCROW_PER_CONTRACT_STROOPS: i128 = 1_000_000_000_000_000;

/// A protocol fee is counted in parts of this many.
pub const BPS_DENOMINATOR: i128 = 10_000;

/// The error codes with which the contract refuses a call.
#[derive(Clone, Copy, Debug, PartialEq, Eq, Structural)]
pub enum EscrowError {
    InvalidParticipant,
    EmptyMilestones,
    InvalidMilestoneAmount,
    InvalidDepositAmount,
    InvalidMilestone,
    UnauthorizedRole,
    InvalidStatusTransition,
    AlreadyCancelled,
    ContractNotFound,
    MilestonesAlreadyReleased,
    TooManyMilestones,
    TotalEscrowTooLarge,
    ApprovalExpired,
    InsufficientApprovals,
    NotInitialized,
    TimelockNotElapsed,
    InvalidState,
    IndexOutOfBounds,
    MilestoneAlreadyReleased,
    AlreadyRefunded,
    InsufficientFunds,
    EmptyRefundRequest,
    DuplicateMilestoneInRefund,
    ContractPaused,
    ContractFinalized,
}

impl EscrowError {
    /// The number under which the error leaves the contract.
    pub open spec fn spec_code(self) -> u32 {
        match self {
            EscrowError::InvalidParticipant => 1,
            EscrowError::EmptyMilestones => 2,
            EscrowError::InvalidMilestoneAmount => 3,
            EscrowError::InvalidDepositAmount => 4,
            EscrowError::InvalidMilestone => 5,
            EscrowError::UnauthorizedRole => 6,
            EscrowError::InvalidStatusTransition => 7,
            EscrowError::AlreadyCancelled => 8,
            EscrowError::ContractNotFound => 9,
            EscrowError::MilestonesAlreadyReleased => 10,
            EscrowError::TooManyMilestones => 11,
            EscrowError::TotalEscrowTooLarge => 12,
            EscrowError::ApprovalExpired => 13,
            EscrowError::InsufficientApprovals => 14,
            EscrowError::NotInitialized => 15,
            EscrowError::TimelockNotElapsed => 16,
            EscrowError::InvalidState => 17,
            EscrowError::IndexOutOfBounds => 18,
            EscrowError::MilestoneAlreadyReleased => 19,
            EscrowError::AlreadyRefunded => 20,
            EscrowError::InsufficientFunds => 21,
            EscrowError::EmptyRefundRequest => 22,
            EscrowError::DuplicateMilestoneInRefund => 23,
            EscrowError::ContractPaused => 24,
            EscrowError::ContractFinalized => 25,
        }
    }

    /// Returns the number under which the error leaves the contract.
    pub fn code(self) -> (code: u32)
        ensures
            code == self.spec_code(),
    {
        match self {
            EscrowError::InvalidParticipant => 1,
            EscrowError::EmptyMilestones => 2,
            EscrowError::InvalidMilestoneAmount => 3,
            EscrowError::InvalidDepositAmount => 4,
            EscrowError::InvalidMilestone => 5,
            EscrowError::UnauthorizedRole => 6,
            EscrowError::InvalidStatusTransition => 7,
            EscrowError::AlreadyCancelled => 8,
            EscrowError::ContractNotFound => 9,
            EscrowError::MilestonesAlreadyReleased => 10,
            EscrowError::TooManyMilestones => 11,
            EscrowError::TotalEscrowTooLarge => 12,
            EscrowError::ApprovalExpired => 13,
            EscrowError::InsufficientApprovals => 14,
            EscrowError::NotInitialized => 15,
            EscrowError::TimelockNotElapsed => 16,
            EscrowError::InvalidState => 17,
            EscrowError::IndexOutOfBounds => 18,
            EscrowError::MilestoneAlreadyReleased => 19,
            EscrowError::AlreadyRefunded => 20,
            EscrowError::InsufficientFunds => 21,
            EscrowError::EmptyRefundRequest => 22,
            EscrowError::DuplicateMilestoneInRefund => 23,
            EscrowError::ContractPaused => 24,
            EscrowError::ContractFinalized => 25,
        }
    }
}

/// The ways in which a call ends without effect.
#[derive(Clone, Debug, PartialEq, Eq)]
pub enum Trap {
    /// The contract refused the call with an error code.
    Error(EscrowError),
    /// The call lacks the signature of this address.
    Unauthorized(Address),
    /// An item of a host vector is not of the type of the vector.
    Conversion,
}

/// Where a contract stands in its life.
#[derive(Clone, Copy, Debug, PartialEq, Eq, Structural)]
pub enum ContractStatus {
    Created,
    Funded,
    Completed,
    Cancelled,
    Disputed,
    Refunded,
}

/// Who may release the milestones of a contract.
#[derive(Clone, Copy, Debug, PartialEq, Eq, Structural)]
pub enum ReleaseAuthorization {
    ClientOnly,
    ArbiterOnly,
    ClientAndArbiter,
    MultiSig,
}

/// The bounds that every contract keeps.
#[derive(Clone, Copy, Debug, PartialEq, Eq, Structural)]
pub struct EscrowBounds {
    pub max_milestones: u32,
    pub max_total_escrow_stroops: i128,
}

/// One milestone of a contract and what became of its money.
#[derive(Clone, Copy, Debug, PartialEq, Eq, Structural)]
pub struct Milestone {
    pub amount: i128,
    pub released: bool,
    pub refunded: bool,
}

/// The record of one contract.
#[derive(Debug, PartialEq, Eq)]
pub struct EscrowContractData {
    pub client: Address,
    pub freelancer: Address,
    pub arbiter: Option<Address>,
    pub milestones: soroban_sdk::Vec<i128>,
    pub status: ContractStatus,
    pub total_deposited: i128,
    pub released_amount: i128,
    pub refunded_amount: i128,
    pub release_authorization: ReleaseAuthorization,
    /// How long an approval stays good, in seconds; for ever where there is none.
    pub approval_expiry_seconds: Option<u64>,
}

impl Clone for EscrowContractData {
    fn clone(&self) -> (r: Self)
        ensures
            r == *self,
    {
        EscrowContractData {
            client: self.client.clone(),
            freelancer: self.freelancer.clone(),
            arbiter: self.arbiter.clone(),
            milestones: self.milestones.clone(),
            status: self.status,
            total_deposited: self.total_deposited,
            released_amount: self.released_amount,
            refunded_amount: self.refunded_amount,
            release_authorization: self.release_authorization,
            approval_expiry_seconds: self.approval_expiry_seconds,
        }
    }
}

/// An approval that waits to be used.
#[derive(Clone, Debug, PartialEq, Eq)]
pub struct PendingApproval {
    pub approver: Address,
    pub contract_id: u32,
    pub requested_at_ledger: u32,
    pub expires_at_ledger: u32,
}

/// A proposed change of the code of the contract.
#[derive(Debug, PartialEq, Eq)]
pub struct PendingMigration {
    pub proposer: Address,
    pub new_wasm_hash: BytesN<32>,
    pub requested_at_ledger: u32,
    pub expires_at_ledger: u32,
}

impl Clone for PendingMigration {
    fn clone(&self) -> (r: Self)
        ensures
            r == *self,
    {
        PendingMigration {
            proposer: self.proposer.clone(),
            new_wasm_hash: self.new_wasm_hash.clone(),
            requested_at_ledger: self.requested_at_ledger,
            expires_at_ledger: self.expires_at_ledger,
        }
    }
}

/// A proposed change of the client of one contract.
#[derive(Debug, PartialEq, Eq)]
pub struct PendingClientMigration {
    pub current_client: Address,
    pub proposed_client: Address,
    pub proposed_client_confirmed: bool,
    pub requested_at_ledger: u32,
    pub expires_at_ledger: u32,
}

impl Clone for PendingClientMigration {
    fn clone(&self) -> (r: Self)
        ensures
            r == *self,
    {
        PendingClientMigration {
            current_client: self.current_client.clone(),
            proposed_client: self.proposed_client.clone(),
            proposed_client_confirmed: self.proposed_client_confirmed,
            requested_at_ledger: self.requested_at_ledger,
            expires_at_ledger: self.expires_at_ledger,
        }
    }
}

/// A proposed change of the administrator.
#[derive(Clone, Debug, PartialEq, Eq)]
pub struct PendingAdminProposal {
    pub proposed: Address,
    pub proposed_at_ledger: u32,
}

/// What the contract announces to those who watch the ledger.
#[derive(Clone, Debug, PartialEq, Eq)]
pub enum Event {
    ContractCancelled {
        contract_id: u32,
        caller: Address,
        status: ContractStatus,
        timestamp: u64,
    },
    MilestoneReleased {
        contract_id: u32,
        milestone_index: u32,
        caller: Address,
        amount: i128,
        released_amount: i128,
        timestamp: u64,
    },
    ClientMigrationProposed {
        contract_id: u32,
        current_client: Address,
        proposed_client: Address,
        ledger: u32,
    },
    ClientMigrationConfirmed {
        contract_id: u32,
        current_client: Address,
        proposed_client: Address,
        ledger: u32,
    },
    ClientMigrationFinalized {
        contract_id: u32,
        current_client: Address,
        proposed_client: Address,
        ledger: u32,
    },
    ClientMigrationCancelled {
        contract_id: u32,
        current_client: Address,
        proposed_client: Address,
        ledger: u32,
    },
    ProtocolFeeBps { old_bps: u32, new_bps: u32, admin: Address, timestamp: u64 },
    AdminProposed { admin: Address, proposed: Address, timestamp: u64 },
    AdminAccepted { old_admin: Address, new_admin: Address, timestamp: u64 },
}

/// The delays of the contract, counted in ledgers.
#[derive(Clone, Copy, Debug, PartialEq, Eq, Structural)]
pub struct LedgerPolicy {
    /// How long a proposed change of client can be confirmed and finalized.
    pub pending_migration_ttl_ledgers: u32,
    /// How long a proposed administrator waits before they can accept.
    pub admin_rotation_min_delay_ledgers: u32,
}

/// The facts of the running call: the time and number of the ledger, and the
/// addresses whose signatures cover the call.
#[derive(Clone, Debug)]
pub struct Invocation {
    pub timestamp: u64,
    pub sequence: u32,
    pub authorized: Vec<Address>,
}

impl Invocation {
    /// Whether the signature of `who` covers the call.
    pub open spec fn covers(self, who: Address) -> bool {
        self.authorized@.contains(who)
    }

    /// Checks that the signature of `who` covers the call.
    pub fn require_auth(&self, who: &Address) -> (r: Result<(), Trap>)
        ensures
            r == if self.covers(*who) {
                Ok::<(), Trap>(())
            } else {
                Err(Trap::Unauthorized(*who))
            },
    {
        let mut i: usize = 0;
        while i < self.authorized.len()
            invariant
                i <= self.authorized@.len(),
                forall|j: int| 0 <= j < i ==> self.authorized@[j] != *who,
            decreases self.authorized@.len() - i,
        {
            if same_address(&self.authorized[i], who) {
                assert(self.authorized@[i as int] == *who);
                return Ok(());
            }
            i = i + 1;
        }
        Err(Trap::Unauthorized(who.clone()))
    }
}

} // verus!
