//! The stored state of the escrow.

use soroban_sdk::Address;
use vstd::prelude::*;

use crate::store::Store;
use crate::types::{
    EscrowContractData, EscrowError, Event, LedgerPolicy, Milestone, PendingAdminProposal,
    PendingClientMigration, Trap,
};

verus! {

/// The state of the escrow: what it keeps in ledger storage, the delays that it
/// runs under, and the events that its calls have raised.
pub struct Escrow {
    pub policy: LedgerPolicy,
    pub contract_count: u32,
    pub contracts: Store<u32, EscrowContractData>,
    pub milestones: Store<u32, Vec<Milestone>>,
    /// When a milestone was last approved, by contract and milestone index.
    pub approval_times: Store<(u32, u32), u64>,
    pub client_migrations: Store<u32, PendingClientMigration>,
    pub finalized: Store<u32, bool>,
    pub reputation_credits: Store<Address, i128>,
    pub paused: bool,
    pub initialized: bool,
    pub admin: Option<Address>,
    pub pending_admin: Option<PendingAdminProposal>,
    pub protocol_fee_bps: Option<u32>,
    pub accumulated_protocol_fees: i128,
    pub events: Vec<Event>,
}

/// [`Escrow`] as a mathematical value.
#[verifier::ext_equal]
pub struct EscrowState {
    pub policy: LedgerPolicy,
    pub contract_count: u32,
    pub contracts: Map<u32, EscrowContractData>,
    pub milestones: Map<u32, Seq<Milestone>>,
    pub approval_times: Map<(u32, u32), u64>,
    pub client_migrations: Map<u32, PendingClientMigration>,
    pub finalized: Map<u32, bool>,
    pub reputation_credits: Map<Address, i128>,
    pub paused: bool,
    pub initialized: bool,
    pub admin: Option<Address>,
    pub pending_admin: Option<PendingAdminProposal>,
    pub protocol_fee_bps: Option<u32>,
    pub accumulated_protocol_fees: i128,
    pub events: Seq<Event>,
}

impl EscrowState {
    /// The books of one contract balance, if the contract exists.
    pub open spec fn books_ok(self, contract_id: u32) -> bool {
        self.contracts.contains_key(contract_id) ==> {
            &&& self.milestones.contains_key(contract_id)
            &&& self.contracts[contract_id].balances(self.milestones[contract_id])
        }
    }

    /// The invariant of the stored state: there is a contract under every number
    /// that was given out and under no other, and the books of each balance.
    pub open spec fn wf(self) -> bool {
        &&& forall|id: u32| #[trigger]
            self.contracts.contains_key(id) <==> id < self.contract_count
        &&& forall|id: u32| #[trigger] self.books_ok(id)
    }

    /// The state with the record of one contract replaced.
    pub open spec fn with_contract(self, contract_id: u32, data: EscrowContractData) -> EscrowState {
        EscrowState { contracts: self.contracts.insert(contract_id, data), ..self }
    }

    /// The state with the milestones of one contract replaced.
    pub open spec fn with_milestones(self, contract_id: u32, ms: Seq<Milestone>) -> EscrowState {
        EscrowState { milestones: self.milestones.insert(contract_id, ms), ..self }
    }

    /// The state with one event raised.
    pub open spec fn with_event(self, event: Event) -> EscrowState {
        EscrowState { events: self.events.push(event), ..self }
    }
}

/// What a call answers: the trap for which it is refused, or `value`.
pub open spec fn answer<T>(refusal: Option<Trap>, value: T) -> Result<T, Trap> {
    match refusal {
        Some(trap) => Err(trap),
        None => Ok(value),
    }
}

/// The refusal with an error code.
pub open spec fn refuse(error: EscrowError) -> Option<Trap> {
    Some(Trap::Error(error))
}

impl Escrow {
    /// The state as a mathematical value.
    pub open spec fn view(&self) -> EscrowState {
        EscrowState {
            policy: self.policy,
            contract_count: self.contract_count,
            contracts: self.contracts@,
            milestones: self.milestones@.map_values(|ms: Vec<Milestone>| ms@),
            approval_times: self.approval_times@,
            client_migrations: self.client_migrations@,
            finalized: self.finalized@,
            reputation_credits: self.reputation_credits@,
            paused: self.paused,
            initialized: self.initialized,
            admin: self.admin,
            pending_admin: self.pending_admin,
            protocol_fee_bps: self.protocol_fee_bps,
            accumulated_protocol_fees: self.accumulated_protocol_fees,
            events: self.events@,
        }
    }

    /// The state before anything is stored.
    pub fn new(policy: LedgerPolicy) -> (r: Self)
        ensures
            r@ == (EscrowState {
                policy,
                contract_count: 0,
                contracts: Map::empty(),
                milestones: Map::empty(),
                approval_times: Map::empty(),
                client_migrations: Map::empty(),
                finalized: Map::empty(),
                reputation_credits: Map::empty(),
                paused: false,
                initialized: false,
                admin: None,
                pending_admin: None,
                protocol_fee_bps: None,
                accumulated_protocol_fees: 0,
                events: Seq::empty(),
            }),
            r@.wf(),
    {
        let r: Escrow = Escrow {
            policy,
            contract_count: 0,
            contracts: Store::new(),
            milestones: Store::new(),
            approval_times: Store::new(),
            client_migrations: Store::new(),
            finalized: Store::new(),
            reputation_credits: Store::new(),
            paused: false,
            initialized: false,
            admin: None,
            pending_admin: None,
            protocol_fee_bps: None,
            accumulated_protocol_fees: 0,
            events: Vec::new(),
        };
        assert(r@.milestones =~= Map::<u32, Seq<Milestone>>::empty());
        r
    }
}

} // verus!
