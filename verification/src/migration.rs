//! Handing the client's side of a contract over to another address.
//!
//! The current client asks for the change and the proposed client co-signs the
//! request; the proposed client then confirms it, and anyone may finalize it.
//! A request that is older than the policy allows can be neither confirmed nor
//! finalized: it waits for the client to withdraw it.

use soroban_sdk::Address;
use vstd::prelude::*;

use crate::host::same_address;
use crate::state;
use crate::state::{Escrow, EscrowState};
use crate::types::{
    ContractStatus, EscrowContractData, EscrowError, Event, Invocation, PendingClientMigration,
    Trap,
};

verus! {

impl ContractStatus {
    /// Whether the client of a contract in this status can change.
    pub open spec fn allows_migration(self) -> bool {
        self is Created || self is Funded
    }
}

impl PendingClientMigration {
    /// Whether the request is too old to act on.
    pub open spec fn expired(self, call: Invocation) -> bool {
        call.sequence > self.expires_at_ledger
    }
}

impl EscrowContractData {
    /// The record with another client.
    pub open spec fn with_client(self, client: Address) -> EscrowContractData {
        EscrowContractData { client, ..self }
    }
}

impl EscrowState {
    /// The state with the request of one contract replaced.
    pub open spec fn with_migration(
        self,
        contract_id: u32,
        pending: PendingClientMigration,
    ) -> EscrowState {
        EscrowState {
            client_migrations: self.client_migrations.insert(contract_id, pending),
            ..self
        }
    }

    /// The state without a request for one contract.
    pub open spec fn without_migration(self, contract_id: u32) -> EscrowState {
        EscrowState { client_migrations: self.client_migrations.remove(contract_id), ..self }
    }

    /// Why a request is refused.
    pub open spec fn request_refusal(
        self,
        call: Invocation,
        contract_id: u32,
        proposed_client: Address,
    ) -> Option<Trap> {
        let data = self.contracts[contract_id];
        if !call.covers(proposed_client) {
            Some(Trap::Unauthorized(proposed_client))
        } else if !self.contracts.contains_key(contract_id) {
            state::refuse(EscrowError::ContractNotFound)
        } else if !call.covers(data.client) {
            Some(Trap::Unauthorized(data.client))
        } else if !data.status.allows_migration() {
            state::refuse(EscrowError::InvalidStatusTransition)
        } else if self.client_migrations.contains_key(contract_id) {
            state::refuse(EscrowError::AlreadyCancelled)
        } else if data.client == proposed_client {
            state::refuse(EscrowError::InvalidParticipant)
        } else {
            None
        }
    }

    /// The state after a request.
    pub open spec fn after_request(
        self,
        call: Invocation,
        contract_id: u32,
        proposed_client: Address,
    ) -> EscrowState {
        let current_client = self.contracts[contract_id].client;
        self.with_migration(
            contract_id,
            PendingClientMigration {
                current_client,
                proposed_client,
                proposed_client_confirmed: false,
                requested_at_ledger: call.sequence,
                expires_at_ledger: (call.sequence
                    + self.policy.pending_migration_ttl_ledgers) as u32,
            },
        ).with_event(
            Event::ClientMigrationProposed {
                contract_id,
                current_client,
                proposed_client,
                ledger: call.sequence,
            },
        )
    }

    /// Why a confirmation is refused.
    pub open spec fn confirm_refusal(self, call: Invocation, contract_id: u32) -> Option<Trap> {
        let pending = self.client_migrations[contract_id];
        if !self.client_migrations.contains_key(contract_id) {
            state::refuse(EscrowError::ContractNotFound)
        } else if !call.covers(pending.proposed_client) {
            Some(Trap::Unauthorized(pending.proposed_client))
        } else if pending.expired(call) {
            state::refuse(EscrowError::InvalidStatusTransition)
        } else {
            None
        }
    }

    /// The state after a confirmation.
    pub open spec fn after_confirm(self, call: Invocation, contract_id: u32) -> EscrowState {
        let pending = self.client_migrations[contract_id];
        self.with_migration(
            contract_id,
            PendingClientMigration { proposed_client_confirmed: true, ..pending },
        ).with_event(
            Event::ClientMigrationConfirmed {
                contract_id,
                current_client: pending.current_client,
                proposed_client: pending.proposed_client,
                ledger: call.sequence,
            },
        )
    }

    /// Why a request cannot be finalized.
    pub open spec fn finalize_refusal(self, call: Invocation, contract_id: u32) -> Option<Trap> {
        let pending = self.client_migrations[contract_id];
        if !self.client_migrations.contains_key(contract_id) {
            state::refuse(EscrowError::ContractNotFound)
        } else if !pending.proposed_client_confirmed || pending.expired(call) {
            state::refuse(EscrowError::InvalidStatusTransition)
        } else if !self.contracts.contains_key(contract_id) {
            state::refuse(EscrowError::ContractNotFound)
        } else {
            None
        }
    }

    /// The state after a request was finalized.
    pub open spec fn after_finalize(self, call: Invocation, contract_id: u32) -> EscrowState {
        let pending = self.client_migrations[contract_id];
        self.with_contract(
            contract_id,
            self.contracts[contract_id].with_client(pending.proposed_client),
        ).without_migration(contract_id).with_event(
            Event::ClientMigrationFinalized {
                contract_id,
                current_client: pending.current_client,
                proposed_client: pending.proposed_client,
                ledger: call.sequence,
            },
        )
    }

    /// Why a request cannot be withdrawn.
    pub open spec fn withdraw_refusal(self, call: Invocation, contract_id: u32) -> Option<Trap> {
        let pending = self.client_migrations[contract_id];
        if !self.client_migrations.contains_key(contract_id) {
            state::refuse(EscrowError::ContractNotFound)
        } else if !call.covers(pending.current_client) {
            Some(Trap::Unauthorized(pending.current_client))
        } else {
            None
        }
    }

    /// The state after a request was withdrawn.
    pub open spec fn after_withdraw(self, call: Invocation, contract_id: u32) -> EscrowState {
        let pending = self.client_migrations[contract_id];
        self.without_migration(contract_id).with_event(
            Event::ClientMigrationCancelled {
                contract_id,
                current_client: pending.current_client,
                proposed_client: pending.proposed_client,
                ledger: call.sequence,
            },
        )
    }

    /// A change of client keeps the books.
    pub proof fn lemma_finalize_keeps_books(self, call: Invocation, contract_id: u32)
        requires
            self.finalize_refusal(call, contract_id) is None,
        ensures
            self.books_ok(contract_id) ==> self.after_finalize(call, contract_id).books_ok(
                contract_id,
            ),
            self.wf() ==> self.after_finalize(call, contract_id).wf(),
    {
        let after = self.after_finalize(call, contract_id);
        if self.books_ok(contract_id) {
            assert(after.contracts[contract_id].balances(self.milestones[contract_id]));
        }
        if self.wf() {
            assert(self.books_ok(contract_id));
            self.lemma_update_keeps_books(after, contract_id);
        }
    }
}

impl Escrow {
    /// Tells whether the client of a contract in this status can change.
    pub fn can_migrate_client(status: &ContractStatus) -> (r: bool)
        ensures
            r == status.allows_migration(),
    {
        match status {
            ContractStatus::Created | ContractStatus::Funded => true,
            ContractStatus::Completed
            | ContractStatus::Cancelled
            | ContractStatus::Disputed
            | ContractStatus::Refunded => false,
        }
    }

    /// Checks that a change of client can be asked for, and returns the client.
    fn check_request(
        &self,
        call: &Invocation,
        contract_id: u32,
        proposed_client: &Address,
    ) -> (r: Result<Address, Trap>)
        ensures
            r == state::answer(
                self@.request_refusal(*call, contract_id, *proposed_client),
                self@.contracts[contract_id].client,
            ),
    {
        match call.require_auth(proposed_client) {
            Ok(_) => {},
            Err(trap) => {
                return Err(trap);
            },
        }
        let data: &EscrowContractData = match self.contracts.get(&contract_id) {
            Some(data) => data,
            None => {
                return Err(Trap::Error(EscrowError::ContractNotFound));
            },
        };
        match call.require_auth(&data.client) {
            Ok(_) => {},
            Err(trap) => {
                return Err(trap);
            },
        }
        if !Self::can_migrate_client(&data.status) {
            return Err(Trap::Error(EscrowError::InvalidStatusTransition));
        }
        if self.has_pending_client_migration(contract_id) {
            return Err(Trap::Error(EscrowError::AlreadyCancelled));
        }
        if same_address(&data.client, proposed_client) {
            return Err(Trap::Error(EscrowError::InvalidParticipant));
        }
        Ok(data.client.clone())
    }

    /// Asks to make `proposed_client` the client of a contract.  Both the
    /// current and the proposed client sign.
    pub fn request_client_migration(
        &mut self,
        call: &Invocation,
        contract_id: u32,
        proposed_client: Address,
    ) -> (r: Result<bool, Trap>)
        requires
            old(self)@.request_refusal(*call, contract_id, proposed_client) is None
                ==> call.sequence + old(self)@.policy.pending_migration_ttl_ledgers <= u32::MAX,
        ensures
            r == state::answer(
                old(self)@.request_refusal(*call, contract_id, proposed_client),
                true,
            ),
            final(self)@ == if r is Ok {
                old(self)@.after_request(*call, contract_id, proposed_client)
            } else {
                old(self)@
            },
            old(self)@.wf() ==> final(self)@.wf(),
    {
        let current_client: Address = match self.check_request(
            call,
            contract_id,
            &proposed_client,
        ) {
            Ok(current_client) => current_client,
            Err(trap) => {
                return Err(trap);
            },
        };
        let expires_at: u32 = call.sequence + self.policy.pending_migration_ttl_ledgers;
        self.client_migrations.set(
            contract_id,
            PendingClientMigration {
                current_client: current_client.clone(),
                proposed_client: proposed_client.clone(),
                proposed_client_confirmed: false,
                requested_at_ledger: call.sequence,
                expires_at_ledger: expires_at,
            },
        );
        self.events.push(
            Event::ClientMigrationProposed {
                contract_id,
                current_client,
                proposed_client,
                ledger: call.sequence,
            },
        );
        proof {
            assert(self@ =~= old(self)@.after_request(*call, contract_id, proposed_client));
            if old(self)@.wf() {
                old(self)@.lemma_same_books(self@);
            }
        }
        Ok(true)
    }

    /// [`Escrow::request_client_migration`] where the request runs out at a ledger
    /// that has a number; otherwise nothing happens.
    pub fn request_client_migration_checked(
        &mut self,
        call: &Invocation,
        contract_id: u32,
        proposed_client: Address,
    ) -> (r: Option<Result<bool, Trap>>)
        ensures
            ({
                let refusal = old(self)@.request_refusal(*call, contract_id, proposed_client);
                r == if refusal is None && call.sequence
                    + old(self)@.policy.pending_migration_ttl_ledgers > u32::MAX {
                    None
                } else {
                    Some(state::answer(refusal, true))
                }
            }),
            final(self)@ == if r is Some && r->0 is Ok {
                old(self)@.after_request(*call, contract_id, proposed_client)
            } else {
                old(self)@
            },
            old(self)@.wf() ==> final(self)@.wf(),
    {
        let ttl: u32 = self.policy.pending_migration_ttl_ledgers;
        if call.sequence.checked_add(ttl).is_none() {
            return match self.check_request(call, contract_id, &proposed_client) {
                Ok(_) => None,
                Err(trap) => Some(Err(trap)),
            };
        }
        Some(self.request_client_migration(call, contract_id, proposed_client))
    }

    /// Confirms a request.  The proposed client signs.
    pub fn confirm_client_migration(
        &mut self,
        call: &Invocation,
        contract_id: u32,
    ) -> (r: Result<bool, Trap>)
        ensures
            r == state::answer(old(self)@.confirm_refusal(*call, contract_id), true),
            final(self)@ == if r is Ok {
                old(self)@.after_confirm(*call, contract_id)
            } else {
                old(self)@
            },
            old(self)@.wf() ==> final(self)@.wf(),
    {
        let mut pending: PendingClientMigration = match self.client_migrations.get(&contract_id) {
            Some(pending) => pending.clone(),
            None => {
                return Err(Trap::Error(EscrowError::ContractNotFound));
            },
        };
        match call.require_auth(&pending.proposed_client) {
            Ok(_) => {},
            Err(trap) => {
                return Err(trap);
            },
        }
        if call.sequence > pending.expires_at_ledger {
            return Err(Trap::Error(EscrowError::InvalidStatusTransition));
        }
        pending.proposed_client_confirmed = true;
        let current_client: Address = pending.current_client.clone();
        let proposed_client: Address = pending.proposed_client.clone();
        self.client_migrations.set(contract_id, pending);
        self.events.push(
            Event::ClientMigrationConfirmed {
                contract_id,
                current_client,
                proposed_client,
                ledger: call.sequence,
            },
        );
        proof {
            assert(self@ =~= old(self)@.after_confirm(*call, contract_id));
            if old(self)@.wf() {
                old(self)@.lemma_same_books(self@);
            }
        }
        Ok(true)
    }

    /// Makes the proposed client of a confirmed request the client.
    pub fn finalize_client_migration(
        &mut self,
        call: &Invocation,
        contract_id: u32,
    ) -> (r: Result<bool, Trap>)
        ensures
            r == state::answer(old(self)@.finalize_refusal(*call, contract_id), true),
            final(self)@ == if r is Ok {
                old(self)@.after_finalize(*call, contract_id)
            } else {
                old(self)@
            },
            old(self)@.wf() ==> final(self)@.wf(),
    {
        let pending: PendingClientMigration = match self.client_migrations.get(&contract_id) {
            Some(pending) => pending.clone(),
            None => {
                return Err(Trap::Error(EscrowError::ContractNotFound));
            },
        };
        if !pending.proposed_client_confirmed {
            return Err(Trap::Error(EscrowError::InvalidStatusTransition));
        }
        if call.sequence > pending.expires_at_ledger {
            return Err(Trap::Error(EscrowError::InvalidStatusTransition));
        }
        let mut data: EscrowContractData = match self.contracts.get(&contract_id) {
            Some(data) => data.clone(),
            None => {
                return Err(Trap::Error(EscrowError::ContractNotFound));
            },
        };
        proof {
            self@.lemma_finalize_keeps_books(*call, contract_id);
        }
        data.client = pending.proposed_client.clone();
        self.contracts.set(contract_id, data);
        let _ = self.client_migrations.remove(&contract_id);
        self.events.push(
            Event::ClientMigrationFinalized {
                contract_id,
                current_client: pending.current_client,
                proposed_client: pending.proposed_client,
                ledger: call.sequence,
            },
        );
        assert(self@ =~= old(self)@.after_finalize(*call, contract_id));
        Ok(true)
    }

    /// Withdraws a request.  The client who made it signs.
    pub fn cancel_client_migration(
        &mut self,
        call: &Invocation,
        contract_id: u32,
    ) -> (r: Result<bool, Trap>)
        ensures
            r == state::answer(old(self)@.withdraw_refusal(*call, contract_id), true),
            final(self)@ == if r is Ok {
                old(self)@.after_withdraw(*call, contract_id)
            } else {
                old(self)@
            },
            old(self)@.wf() ==> final(self)@.wf(),
    {
        let pending: PendingClientMigration = match self.client_migrations.get(&contract_id) {
            Some(pending) => pending.clone(),
            None => {
                return Err(Trap::Error(EscrowError::ContractNotFound));
            },
        };
        match call.require_auth(&pending.current_client) {
            Ok(_) => {},
            Err(trap) => {
                return Err(trap);
            },
        }
        let _ = self.client_migrations.remove(&contract_id);
        self.events.push(
            Event::ClientMigrationCancelled {
                contract_id,
                current_client: pending.current_client,
                proposed_client: pending.proposed_client,
                ledger: call.sequence,
            },
        );
        proof {
            assert(self@ =~= old(self)@.after_withdraw(*call, contract_id));
            if old(self)@.wf() {
                old(self)@.lemma_same_books(self@);
            }
        }
        Ok(true)
    }

    /// Returns the request that waits for a contract.
    pub fn get_pending_client_migration(
        &self,
        contract_id: u32,
    ) -> (r: Result<PendingClientMigration, Trap>)
        ensures
            r == if self@.client_migrations.contains_key(contract_id) {
                Ok::<PendingClientMigration, Trap>(self@.client_migrations[contract_id])
            } else {
                Err(Trap::Error(EscrowError::ContractNotFound))
            },
    {
        match self.client_migrations.get(&contract_id) {
            Some(pending) => Ok(pending.clone()),
            None => Err(Trap::Error(EscrowError::ContractNotFound)),
        }
    }

    /// Tells whether a request waits for a contract.
    pub fn has_pending_client_migration(&self, contract_id: u32) -> (r: bool)
        ensures
            r == self@.client_migrations.contains_key(contract_id),
    {
        self.client_migrations.has(&contract_id)
    }
}

} // verus!
