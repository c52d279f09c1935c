use escrow::{Escrow, EscrowError, Invocation, LedgerPolicy, Trap};
use soroban_sdk::{Address, Env};

const CLIENT: &str = "GAAQCAIBAEAQCAIBAEAQCAIBAEAQCAIBAEAQCAIBAEAQCAIBAEAQDZ7H";
const FREELANCER: &str = "GABAEAQCAIBAEAQCAIBAEAQCAIBAEAQCAIBAEAQCAIBAEAQCAIBAEJXA";

fn setup() -> (Env, Escrow, Address, Address) {
    let env = Env::default();
    let escrow = Escrow::new(LedgerPolicy {
        pending_migration_ttl_ledgers: 100,
        admin_rotation_min_delay_ledgers: 10,
    });
    let client_addr = Address::from_str(&env, CLIENT);
    let freelancer_addr = Address::from_str(&env, FREELANCER);
    (env, escrow, client_addr, freelancer_addr)
}

fn at(timestamp: u64, signers: &[&Address]) -> Invocation {
    Invocation {
        timestamp,
        sequence: 1,
        authorized: signers.iter().map(|a| (*a).clone()).collect(),
    }
}

fn open(
    env: &Env,
    escrow: &mut Escrow,
    client: &Address,
    freelancer: &Address,
    window: Option<u64>,
) -> u32 {
    let milestones = soroban_sdk::Vec::from_array(env, [100_0000000_i128]);
    escrow
        .create_contract(
            &at(0, &[client]),
            client.clone(),
            freelancer.clone(),
            None,
            milestones,
            None,
            None,
            window,
        )
        .unwrap()
}

#[test]
fn test_approval_expiry_success() {
    let (env, mut escrow, client_addr, freelancer_addr) = setup();
    let expiry_window = 3600; // 1 hour
    let contract_id = open(
        &env,
        &mut escrow,
        &client_addr,
        &freelancer_addr,
        Some(expiry_window),
    );

    assert_eq!(escrow.deposit_funds(contract_id, 100_0000000_i128), Ok(true));

    // Approve milestone
    assert!(escrow.approve_milestone(&at(0, &[]), contract_id, 0));

    // Release within window (current time)
    assert_eq!(escrow.release_milestone(&at(0, &[]), contract_id, 0), Ok(true));

    let contract = escrow.get_contract(contract_id).unwrap();
    assert_eq!(contract.released_amount, 100_0000000_i128);
}

#[test]
fn test_approval_expiry_failure() {
    let (env, mut escrow, client_addr, freelancer_addr) = setup();
    let expiry_window = 3600; // 1 hour
    let contract_id = open(
        &env,
        &mut escrow,
        &client_addr,
        &freelancer_addr,
        Some(expiry_window),
    );

    assert_eq!(escrow.deposit_funds(contract_id, 100_0000000_i128), Ok(true));

    assert!(escrow.approve_milestone(&at(1000, &[]), contract_id, 0));

    // Fast forward past expiry (1000 + 3600 + 1); release should fail
    let result = escrow.release_milestone(&at(1000 + 3600 + 1, &[]), contract_id, 0);
    assert_eq!(result, Err(Trap::Error(EscrowError::ApprovalExpired)));
}

#[test]
fn test_reapproval_resets_expiry() {
    let (env, mut escrow, client_addr, freelancer_addr) = setup();
    let expiry_window = 3600; // 1 hour
    let contract_id = open(
        &env,
        &mut escrow,
        &client_addr,
        &freelancer_addr,
        Some(expiry_window),
    );

    assert_eq!(escrow.deposit_funds(contract_id, 100_0000000_i128), Ok(true));

    // First approval at T=1000
    assert!(escrow.approve_milestone(&at(1000, &[]), contract_id, 0));

    // It runs out after T=4600
    let result = escrow.release_milestone(&at(4601, &[]), contract_id, 0);
    assert_eq!(result, Err(Trap::Error(EscrowError::ApprovalExpired)));

    // Re-approve at T=4000
    assert!(escrow.approve_milestone(&at(4000, &[]), contract_id, 0));

    // T=7000 lies within the new window: 4000 to 7600
    assert_eq!(escrow.release_milestone(&at(7000, &[]), contract_id, 0), Ok(true));
}

#[test]
fn test_no_expiry_if_not_set() {
    let (env, mut escrow, client_addr, freelancer_addr) = setup();
    let contract_id = open(&env, &mut escrow, &client_addr, &freelancer_addr, None);

    assert_eq!(escrow.deposit_funds(contract_id, 100_0000000_i128), Ok(true));

    // Approve at T=1000
    assert!(escrow.approve_milestone(&at(1000, &[]), contract_id, 0));

    // Move very far in the future; should still work
    let late = at(1000 + 1_000_000, &[]);
    assert_eq!(escrow.release_milestone(&late, contract_id, 0), Ok(true));
}

#[test]
fn approval_lasts_to_the_end_of_its_window() {
    let (env, mut escrow, client_addr, freelancer_addr) = setup();
    let contract_id = open(
        &env,
        &mut escrow,
        &client_addr,
        &freelancer_addr,
        Some(3600),
    );
    assert_eq!(escrow.deposit_funds(contract_id, 100_0000000_i128), Ok(true));
    assert!(escrow.approve_milestone(&at(1000, &[]), contract_id, 0));
    let last_second = at(1000 + 3600, &[]);
    assert_eq!(escrow.release_milestone(&last_second, contract_id, 0), Ok(true));
}

#[test]
fn reapproval_opens_a_new_window() {
    let (env, mut escrow, client_addr, freelancer_addr) = setup();
    let contract_id = open(
        &env,
        &mut escrow,
        &client_addr,
        &freelancer_addr,
        Some(3600),
    );
    assert_eq!(escrow.deposit_funds(contract_id, 100_0000000_i128), Ok(true));

    assert!(escrow.approve_milestone(&at(1000, &[]), contract_id, 0));
    assert_eq!(
        escrow.release_milestone(&at(5000, &[]), contract_id, 0),
        Err(Trap::Error(EscrowError::ApprovalExpired))
    );

    assert!(escrow.approve_milestone(&at(5000, &[]), contract_id, 0));
    assert_eq!(escrow.release_milestone(&at(8000, &[]), contract_id, 0), Ok(true));
}

#[test]
fn window_does_not_overflow_the_clock() {
    let (env, mut escrow, client_addr, freelancer_addr) = setup();
    let contract_id = open(
        &env,
        &mut escrow,
        &client_addr,
        &freelancer_addr,
        Some(u64::MAX),
    );
    assert_eq!(escrow.deposit_funds(contract_id, 100_0000000_i128), Ok(true));
    assert!(escrow.approve_milestone(&at(1000, &[]), contract_id, 0));
    assert_eq!(
        escrow.release_milestone(&at(u64::MAX, &[]), contract_id, 0),
        Ok(true)
    );
}
