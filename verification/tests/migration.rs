use escrow::{
    ContractStatus, Escrow, EscrowError, Event, Invocation, LedgerPolicy, PendingClientMigration,
    PendingMigration, Trap,
};
use soroban_sdk::{Address, BytesN, Env};

const NAMES: [&str; 3] = [
    "GAAQCAIBAEAQCAIBAEAQCAIBAEAQCAIBAEAQCAIBAEAQCAIBAEAQDZ7H",
    "GABAEAQCAIBAEAQCAIBAEAQCAIBAEAQCAIBAEAQCAIBAEAQCAIBAEJXA",
    "GABQGAYDAMBQGAYDAMBQGAYDAMBQGAYDAMBQGAYDAMBQGAYDAMBQHGPC",
];

struct World {
    escrow: Escrow,
    client: Address,
    freelancer: Address,
    next: Address,
    id: u32,
}

fn opened() -> World {
    let env = Env::default();
    let who = |i: usize| Address::from_str(&env, NAMES[i]);
    let mut w = World {
        escrow: Escrow::new(LedgerPolicy {
            pending_migration_ttl_ledgers: 100,
            admin_rotation_min_delay_ledgers: 10,
        }),
        client: who(0),
        freelancer: who(1),
        next: who(2),
        id: 0,
    };
    w.id = w
        .escrow
        .create_contract(
            &on(1, &[&w.client]),
            w.client.clone(),
            w.freelancer.clone(),
            None,
            soroban_sdk::Vec::from_array(&env, [5_i128]),
            None,
            None,
            None,
        )
        .unwrap();
    w
}

fn on(sequence: u32, signers: &[&Address]) -> Invocation {
    Invocation {
        timestamp: 0,
        sequence,
        authorized: signers.iter().map(|a| (*a).clone()).collect(),
    }
}

fn refused<T>(error: EscrowError) -> Result<T, Trap> {
    Err(Trap::Error(error))
}

impl World {
    fn request(&mut self, sequence: u32) -> Result<bool, Trap> {
        let call = on(sequence, &[&self.client, &self.next]);
        self.escrow
            .request_client_migration(&call, self.id, self.next.clone())
    }

    fn confirm(&mut self, sequence: u32) -> Result<bool, Trap> {
        let call = on(sequence, &[&self.next]);
        self.escrow.confirm_client_migration(&call, self.id)
    }

    fn finalize(&mut self, sequence: u32) -> Result<bool, Trap> {
        self.escrow
            .finalize_client_migration(&on(sequence, &[]), self.id)
    }
}

#[test]
fn migration_runs_through() {
    let mut w = opened();
    assert!(!w.escrow.has_pending_client_migration(w.id));
    assert_eq!(w.request(10), Ok(true));
    assert!(w.escrow.has_pending_client_migration(w.id));
    assert_eq!(
        w.escrow.get_pending_client_migration(w.id),
        Ok(PendingClientMigration {
            current_client: w.client.clone(),
            proposed_client: w.next.clone(),
            proposed_client_confirmed: false,
            requested_at_ledger: 10,
            expires_at_ledger: 110,
        })
    );
    assert_eq!(w.finalize(11), refused(EscrowError::InvalidStatusTransition));
    assert_eq!(w.confirm(110), Ok(true));
    assert!(
        w.escrow
            .get_pending_client_migration(w.id)
            .unwrap()
            .proposed_client_confirmed
    );
    assert_eq!(w.finalize(110), Ok(true));
    let data = w.escrow.get_contract(w.id).unwrap();
    assert_eq!(data.client, w.next);
    assert_eq!(data.freelancer, w.freelancer);
    assert!(!w.escrow.has_pending_client_migration(w.id));
    assert_eq!(
        w.escrow.get_pending_client_migration(w.id),
        refused(EscrowError::ContractNotFound)
    );
    let parties = (w.id, w.client.clone(), w.next.clone());
    let (contract_id, current_client, proposed_client) = parties;
    assert_eq!(
        w.escrow.events,
        vec![
            Event::ClientMigrationProposed {
                contract_id,
                current_client: current_client.clone(),
                proposed_client: proposed_client.clone(),
                ledger: 10,
            },
            Event::ClientMigrationConfirmed {
                contract_id,
                current_client: current_client.clone(),
                proposed_client: proposed_client.clone(),
                ledger: 110,
            },
            Event::ClientMigrationFinalized {
                contract_id,
                current_client,
                proposed_client,
                ledger: 110,
            },
        ]
    );
}

#[test]
fn requests_are_refused_for_these_reasons() {
    let mut w = opened();
    let (client, next) = (w.client.clone(), w.next.clone());
    let id = w.id;
    assert_eq!(
        w.escrow
            .request_client_migration(&on(10, &[&client]), id, next.clone()),
        Err(Trap::Unauthorized(next.clone()))
    );
    assert_eq!(
        w.escrow
            .request_client_migration(&on(10, &[&client, &next]), 9, next.clone()),
        refused(EscrowError::ContractNotFound)
    );
    assert_eq!(
        w.escrow
            .request_client_migration(&on(10, &[&next]), id, next.clone()),
        Err(Trap::Unauthorized(client.clone()))
    );
    assert_eq!(
        w.escrow
            .request_client_migration(&on(10, &[&client]), id, client.clone()),
        refused(EscrowError::InvalidParticipant)
    );
    assert_eq!(w.request(10), Ok(true));
    assert_eq!(w.request(10), refused(EscrowError::AlreadyCancelled));
    let mut w = opened();
    assert_eq!(
        w.escrow
            .cancel_contract(&on(10, &[&w.client]), w.id, w.client.clone()),
        Ok(true)
    );
    assert_eq!(w.request(10), refused(EscrowError::InvalidStatusTransition));
}

#[test]
fn an_old_request_waits_to_be_withdrawn() {
    let mut w = opened();
    assert_eq!(w.confirm(10), refused(EscrowError::ContractNotFound));
    assert_eq!(w.finalize(10), refused(EscrowError::ContractNotFound));
    assert_eq!(w.request(10), Ok(true));
    assert_eq!(
        w.escrow.confirm_client_migration(&on(10, &[&w.client]), w.id),
        Err(Trap::Unauthorized(w.next.clone()))
    );
    assert_eq!(w.confirm(111), refused(EscrowError::InvalidStatusTransition));
    assert_eq!(w.confirm(20), Ok(true));
    assert_eq!(w.finalize(111), refused(EscrowError::InvalidStatusTransition));
    assert!(w.escrow.has_pending_client_migration(w.id));
    assert_eq!(
        w.escrow.cancel_client_migration(&on(111, &[&w.next]), w.id),
        Err(Trap::Unauthorized(w.client.clone()))
    );
    assert_eq!(
        w.escrow.cancel_client_migration(&on(111, &[&w.client]), w.id),
        Ok(true)
    );
    assert!(!w.escrow.has_pending_client_migration(w.id));
    assert_eq!(
        w.escrow.cancel_client_migration(&on(111, &[&w.client]), w.id),
        refused(EscrowError::ContractNotFound)
    );
    assert_eq!(w.escrow.get_contract(w.id).unwrap().client, w.client);
    assert_eq!(w.request(112), Ok(true));
}

#[test]
fn a_request_without_a_contract_cannot_be_finalized() {
    let mut w = opened();
    assert_eq!(w.request(10), Ok(true));
    assert_eq!(w.confirm(10), Ok(true));
    let _ = w.escrow.contracts.remove(&w.id);
    assert_eq!(w.finalize(10), refused(EscrowError::ContractNotFound));
}

#[test]
fn two_statuses_allow_a_migration() {
    assert!(Escrow::can_migrate_client(&ContractStatus::Created));
    assert!(Escrow::can_migrate_client(&ContractStatus::Funded));
    assert!(!Escrow::can_migrate_client(&ContractStatus::Completed));
    assert!(!Escrow::can_migrate_client(&ContractStatus::Cancelled));
    assert!(!Escrow::can_migrate_client(&ContractStatus::Disputed));
    assert!(!Escrow::can_migrate_client(&ContractStatus::Refunded));
}

#[test]
fn a_request_needs_a_ledger_to_run_out_at() {
    let mut w = opened();
    let call = on(u32::MAX - 99, &[&w.client, &w.next]);
    assert_eq!(
        w.escrow.request_client_migration_checked(&call, w.id, w.client.clone()),
        Some(refused(EscrowError::InvalidParticipant))
    );
    assert_eq!(
        w.escrow.request_client_migration_checked(&call, w.id, w.next.clone()),
        None
    );
    assert!(!w.escrow.has_pending_client_migration(w.id));
    assert!(w.escrow.events.is_empty());
    let call = on(u32::MAX - 100, &[&w.client, &w.next]);
    assert_eq!(
        w.escrow.request_client_migration_checked(&call, w.id, w.next.clone()),
        Some(Ok(true))
    );
    let pending = w.escrow.get_pending_client_migration(w.id).unwrap();
    assert_eq!(pending.expires_at_ledger, u32::MAX);
}

#[test]
fn a_proposed_change_of_code_can_be_copied() {
    let env = Env::default();
    let proposal = PendingMigration {
        proposer: Address::from_str(&env, NAMES[0]),
        new_wasm_hash: BytesN::from_array(&env, &[7; 32]),
        requested_at_ledger: 3,
        expires_at_ledger: 103,
    };
    let copy = proposal.clone();
    assert_eq!(copy, proposal);
    assert_eq!(copy.new_wasm_hash.to_array(), [7; 32]);
}
