use escrow::governance::update_readiness_checklist;
use escrow::{Escrow, EscrowError, Event, Invocation, LedgerPolicy, Trap};
use soroban_sdk::{Address, Env};

const NAMES: [&str; 2] = [
    "GAAQCAIBAEAQCAIBAEAQCAIBAEAQCAIBAEAQCAIBAEAQCAIBAEAQDZ7H",
    "GABAEAQCAIBAEAQCAIBAEAQCAIBAEAQCAIBAEAQCAIBAEAQCAIBAEJXA",
];

fn start() -> (Escrow, Address, Address) {
    let env = Env::default();
    let escrow = Escrow::new(LedgerPolicy {
        pending_migration_ttl_ledgers: 100,
        admin_rotation_min_delay_ledgers: 10,
    });
    (
        escrow,
        Address::from_str(&env, NAMES[0]),
        Address::from_str(&env, NAMES[1]),
    )
}

fn on(sequence: u32, signers: &[&Address]) -> Invocation {
    Invocation {
        timestamp: 600,
        sequence,
        authorized: signers.iter().map(|a| (*a).clone()).collect(),
    }
}

fn refused<T>(error: EscrowError) -> Result<T, Trap> {
    Err(Trap::Error(error))
}

#[test]
fn the_fee_is_set_by_the_administrator() {
    let (mut escrow, admin, other) = start();
    escrow.admin = Some(admin.clone());
    let call = on(1, &[&admin]);
    assert_eq!(
        escrow.set_protocol_fee_bps(&call, 250),
        refused(EscrowError::NotInitialized)
    );
    escrow.initialized = true;
    escrow.admin = None;
    assert_eq!(
        escrow.set_protocol_fee_bps(&call, 250),
        refused(EscrowError::NotInitialized)
    );
    escrow.admin = Some(admin.clone());
    assert_eq!(
        escrow.set_protocol_fee_bps(&on(1, &[&other]), 250),
        Err(Trap::Unauthorized(admin.clone()))
    );
    assert_eq!(escrow.protocol_fee_bps, None);
    assert_eq!(escrow.set_protocol_fee_bps(&call, 250), Ok(true));
    assert_eq!(escrow.set_protocol_fee_bps(&call, 300), Ok(true));
    assert_eq!(escrow.protocol_fee_bps, Some(300));
    assert_eq!(
        escrow.events,
        vec![
            Event::ProtocolFeeBps {
                old_bps: 0,
                new_bps: 250,
                admin: admin.clone(),
                timestamp: 600,
            },
            Event::ProtocolFeeBps {
                old_bps: 250,
                new_bps: 300,
                admin,
                timestamp: 600,
            },
        ]
    );
}

#[test]
fn a_new_administrator_waits_for_the_delay() {
    let (mut escrow, admin, next) = start();
    assert_eq!(
        escrow.propose_governance_admin_impl(&on(20, &[&admin]), next.clone()),
        refused(EscrowError::NotInitialized)
    );
    assert_eq!(
        escrow.accept_governance_admin_impl(&on(20, &[&next])),
        refused(EscrowError::NotInitialized)
    );
    escrow.initialized = true;
    escrow.admin = Some(admin.clone());
    assert_eq!(
        escrow.accept_governance_admin_impl(&on(20, &[&next])),
        refused(EscrowError::InvalidState)
    );
    assert_eq!(escrow.get_pending_governance_admin_impl(), None);
    assert_eq!(
        escrow.propose_governance_admin_impl(&on(20, &[&next]), next.clone()),
        Err(Trap::Unauthorized(admin.clone()))
    );
    assert_eq!(
        escrow.propose_governance_admin_impl(&on(20, &[&admin]), next.clone()),
        Ok(true)
    );
    assert_eq!(escrow.get_pending_governance_admin_impl(), Some(next.clone()));
    assert_eq!(
        escrow.accept_governance_admin_impl(&on(29, &[&next])),
        refused(EscrowError::TimelockNotElapsed)
    );
    assert_eq!(
        escrow.accept_governance_admin_impl(&on(5, &[&next])),
        refused(EscrowError::TimelockNotElapsed)
    );
    assert_eq!(
        escrow.accept_governance_admin_impl(&on(30, &[&admin])),
        Err(Trap::Unauthorized(next.clone()))
    );
    assert_eq!(escrow.get_governance_admin_impl(), Some(admin.clone()));
    assert_eq!(escrow.accept_governance_admin_impl(&on(30, &[&next])), Ok(true));
    assert_eq!(escrow.get_governance_admin_impl(), Some(next.clone()));
    assert_eq!(escrow.get_pending_governance_admin_impl(), None);
    assert_eq!(
        escrow.accept_governance_admin_impl(&on(30, &[&next])),
        refused(EscrowError::InvalidState)
    );
    assert_eq!(
        escrow.events,
        vec![
            Event::AdminProposed {
                admin: admin.clone(),
                proposed: next.clone(),
                timestamp: 600,
            },
            Event::AdminAccepted {
                old_admin: admin,
                new_admin: next,
                timestamp: 600,
            },
        ]
    );
}

#[test]
fn a_proposal_without_an_administrator_is_not_accepted() {
    let (mut escrow, admin, next) = start();
    escrow.initialized = true;
    escrow.admin = Some(admin.clone());
    assert_eq!(
        escrow.propose_governance_admin_impl(&on(20, &[&admin]), next.clone()),
        Ok(true)
    );
    escrow.admin = None;
    assert_eq!(
        escrow.accept_governance_admin_impl(&on(30, &[&next])),
        refused(EscrowError::NotInitialized)
    );
}

#[test]
fn the_checklist_starts_from_what_is_stored() {
    let mark = |list: &mut (bool, bool)| list.1 = true;
    assert_eq!(
        update_readiness_checklist(Some((true, false)), (false, false), mark),
        (true, true)
    );
    assert_eq!(
        update_readiness_checklist(None, (false, false), mark),
        (false, true)
    );
}
