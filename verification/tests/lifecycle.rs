use escrow::{
    ContractStatus, Escrow, EscrowError, Event, Invocation, LedgerPolicy, ReleaseAuthorization,
    Trap, MAX_MILESTONES, MAX_TOTAL_ESCROW_STROOPS,
};
use soroban_sdk::{Address, Env, Symbol, TryFromVal};

const NAMES: [&str; 4] = [
    "GAAQCAIBAEAQCAIBAEAQCAIBAEAQCAIBAEAQCAIBAEAQCAIBAEAQDZ7H",
    "GABAEAQCAIBAEAQCAIBAEAQCAIBAEAQCAIBAEAQCAIBAEAQCAIBAEJXA",
    "GABQGAYDAMBQGAYDAMBQGAYDAMBQGAYDAMBQGAYDAMBQGAYDAMBQHGPC",
    "GACAIBAEAQCAIBAEAQCAIBAEAQCAIBAEAQCAIBAEAQCAIBAEAQCAJJHP",
];

struct World {
    env: Env,
    escrow: Escrow,
    client: Address,
    freelancer: Address,
    arbiter: Address,
    stranger: Address,
}

fn world() -> World {
    let env = Env::default();
    let who = |i: usize| Address::from_str(&env, NAMES[i]);
    World {
        escrow: Escrow::new(LedgerPolicy {
            pending_migration_ttl_ledgers: 100,
            admin_rotation_min_delay_ledgers: 10,
        }),
        client: who(0),
        freelancer: who(1),
        arbiter: who(2),
        stranger: who(3),
        env,
    }
}

fn signed(signers: &[&Address]) -> Invocation {
    Invocation {
        timestamp: 50,
        sequence: 7,
        authorized: signers.iter().map(|a| (*a).clone()).collect(),
    }
}

fn refused<T>(error: EscrowError) -> Result<T, Trap> {
    Err(Trap::Error(error))
}

impl World {
    fn amounts(&self, amounts: &[i128]) -> soroban_sdk::Vec<i128> {
        soroban_sdk::Vec::from_slice(&self.env, amounts)
    }

    fn create(
        &mut self,
        call: &Invocation,
        client: &Address,
        freelancer: &Address,
        arbiter: Option<&Address>,
        milestones: soroban_sdk::Vec<i128>,
    ) -> Result<u32, Trap> {
        self.escrow.create_contract(
            call,
            client.clone(),
            freelancer.clone(),
            arbiter.cloned(),
            milestones,
            None,
            None,
            None,
        )
    }

    fn open(&mut self, amounts: &[i128]) -> u32 {
        let (client, freelancer, arbiter) =
            (self.client.clone(), self.freelancer.clone(), self.arbiter.clone());
        let milestones = self.amounts(amounts);
        self.create(&signed(&[&client]), &client, &freelancer, Some(&arbiter), milestones)
            .unwrap()
    }

    fn cancel(&mut self, id: u32, caller: &Address) -> Result<bool, Trap> {
        self.escrow
            .cancel_contract(&signed(&[caller]), id, caller.clone())
    }

    fn set_status(&mut self, id: u32, status: ContractStatus) {
        let mut data = self.escrow.contracts.remove(&id).unwrap();
        data.status = status;
        self.escrow.contracts.set(id, data);
    }
}

#[test]
fn hello_hands_the_symbol_back() {
    let w = world();
    let to = Symbol::new(&w.env, "a_rather_long_symbol");
    assert_eq!(Escrow::hello(to.clone()), to);
}

#[test]
fn bounds_are_the_announced_ones() {
    let bounds = Escrow::get_bounds();
    assert_eq!(bounds.max_milestones, 10);
    assert_eq!(bounds.max_total_escrow_stroops, 10_000_000_000_000);
    assert_eq!(MAX_MILESTONES, 10);
    assert_eq!(MAX_TOTAL_ESCROW_STROOPS, 10_000_000_000_000);
}

#[test]
fn a_new_contract_is_stored_under_the_next_number() {
    let mut w = world();
    assert_eq!(w.open(&[5, 6]), 0);
    assert_eq!(w.open(&[7]), 1);
    assert_eq!(w.escrow.contract_count, 2);

    let data = w.escrow.get_contract(0).unwrap();
    assert_eq!(data.client, w.client);
    assert_eq!(data.freelancer, w.freelancer);
    assert_eq!(data.arbiter, Some(w.arbiter.clone()));
    assert_eq!(data.milestones, w.amounts(&[5, 6]));
    assert_eq!(data.status, ContractStatus::Created);
    assert_eq!(data.total_deposited, 0);
    assert_eq!(data.released_amount, 0);
    assert_eq!(data.refunded_amount, 0);
    assert_eq!(data.release_authorization, ReleaseAuthorization::ClientOnly);
    assert_eq!(w.escrow.get_milestones(0), Ok(w.amounts(&[5, 6])));
    assert_eq!(w.escrow.get_milestones(1), Ok(w.amounts(&[7])));
    let stored = w.escrow.milestones.get(&0).unwrap();
    assert_eq!(stored.len(), 2);
    assert_eq!(stored[1].amount, 6);
    assert!(!stored[1].released && !stored[1].refunded);
    assert!(w.escrow.check_accounting_invariant(0));
}

#[test]
fn a_contract_needs_a_number() {
    let mut w = world();
    let (client, freelancer) = (w.client.clone(), w.freelancer.clone());
    w.escrow.contract_count = u32::MAX;
    let empty = w.amounts(&[]);
    assert_eq!(
        w.create(&signed(&[&client]), &client, &freelancer, None, empty.clone()),
        refused(EscrowError::EmptyMilestones)
    );
    let open = |w: &mut World, milestones| {
        w.escrow.create_contract_checked(
            &signed(&[&client]),
            client.clone(),
            freelancer.clone(),
            None,
            milestones,
            None,
            None,
            Some(60),
        )
    };
    assert_eq!(open(&mut w, empty), Some(refused(EscrowError::EmptyMilestones)));
    let milestones = w.amounts(&[5]);
    assert_eq!(open(&mut w, milestones.clone()), None);
    assert_eq!(w.escrow.contract_count, u32::MAX);
    assert_eq!(w.escrow.get_contract(u32::MAX), refused(EscrowError::ContractNotFound));
    w.escrow.contract_count = u32::MAX - 1;
    assert_eq!(open(&mut w, milestones), Some(Ok(u32::MAX - 1)));
    let data = w.escrow.get_contract(u32::MAX - 1).unwrap();
    assert_eq!(data.approval_expiry_seconds, Some(60));
    assert_eq!(w.escrow.contract_count, u32::MAX);
}

#[test]
fn records_and_their_lists_stay() {
    let mut w = world();
    let client = w.client.clone();
    let first = w.open(&[5, 7]);
    let second = w.open(&[9]);
    let list = w.amounts(&[5, 7]);
    assert_eq!(w.escrow.deposit_funds(first, 12), Ok(true));
    assert_eq!(w.escrow.get_milestones(first), Ok(list.clone()));
    assert_eq!(w.escrow.release_milestone(&signed(&[]), first, 1), Ok(true));
    assert_eq!(w.escrow.get_milestones(first), Ok(list.clone()));
    assert_eq!(w.escrow.release_milestone(&signed(&[]), first, 0), Ok(true));
    assert_eq!(
        w.escrow.cancel_contract(&signed(&[&client]), second, client.clone()),
        Ok(true)
    );
    assert_eq!(w.escrow.get_milestones(first), Ok(list));
    assert_eq!(w.escrow.contract_count, 2);
    for id in 0..w.escrow.contract_count {
        assert!(w.escrow.get_contract(id).is_ok());
    }
    assert_eq!(w.escrow.get_contract(2), refused(EscrowError::ContractNotFound));
}

#[test]
fn opening_needs_the_signature_of_the_client() {
    let mut w = world();
    let (client, freelancer) = (w.client.clone(), w.freelancer.clone());
    let milestones = w.amounts(&[5]);
    let result = w.create(&signed(&[&freelancer]), &client, &freelancer, None, milestones);
    assert_eq!(result, Err(Trap::Unauthorized(client)));
    assert_eq!(w.escrow.contract_count, 0);
}

#[test]
fn nobody_takes_two_roles_at_opening() {
    let mut w = world();
    let (client, freelancer) = (w.client.clone(), w.freelancer.clone());
    let call = signed(&[&client]);
    let ms = w.amounts(&[5]);
    let error = EscrowError::InvalidParticipant;
    assert_eq!(w.create(&call, &client, &client, None, ms.clone()), refused(error));
    assert_eq!(
        w.create(&call, &client, &freelancer, Some(&client), ms.clone()),
        refused(error)
    );
    assert_eq!(
        w.create(&call, &client, &freelancer, Some(&freelancer), ms),
        refused(error)
    );
}

#[test]
fn milestone_lists_out_of_bounds_are_refused() {
    let mut w = world();
    let (client, freelancer) = (w.client.clone(), w.freelancer.clone());
    let call = signed(&[&client]);
    let cases: [(Vec<i128>, EscrowError); 7] = [
        (vec![], EscrowError::EmptyMilestones),
        (vec![1; 11], EscrowError::TooManyMilestones),
        (vec![1, 0, 2], EscrowError::InvalidMilestoneAmount),
        (vec![-1], EscrowError::InvalidMilestoneAmount),
        (vec![10_000_000_000_000, 1], EscrowError::TotalEscrowTooLarge),
        (vec![i128::MAX; 10], EscrowError::TotalEscrowTooLarge),
        (vec![i128::MAX, i128::MAX, 0], EscrowError::InvalidMilestoneAmount),
    ];
    for (list, error) in cases {
        let ms = w.amounts(&list);
        assert_eq!(w.create(&call, &client, &freelancer, None, ms), refused(error));
    }
    assert_eq!(w.escrow.contract_count, 0);
    let ms = w.amounts(&[1_000_000_000_000; 10]);
    assert_eq!(w.create(&call, &client, &freelancer, None, ms), Ok(0));
}

#[test]
fn an_item_that_is_no_amount_ends_the_call() {
    let mut w = world();
    let (client, freelancer) = (w.client.clone(), w.freelancer.clone());
    let symbols = soroban_sdk::Vec::from_array(&w.env, [Symbol::new(&w.env, "five")]);
    let ms: soroban_sdk::Vec<i128> =
        soroban_sdk::Vec::try_from_val(&w.env, &symbols.to_val()).unwrap();
    let result = w.create(&signed(&[&client]), &client, &freelancer, None, ms);
    assert_eq!(result, Err(Trap::Conversion));
}

#[test]
fn deposits_add_up_to_the_worth_of_the_milestones() {
    let mut w = world();
    let id = w.open(&[5, 6]);
    assert_eq!(w.escrow.deposit_funds(id, 0), refused(EscrowError::InvalidDepositAmount));
    assert_eq!(w.escrow.deposit_funds(id, -4), refused(EscrowError::InvalidDepositAmount));
    assert_eq!(w.escrow.deposit_funds(9, 4), refused(EscrowError::ContractNotFound));
    assert_eq!(w.escrow.deposit_funds(9, 0), refused(EscrowError::InvalidDepositAmount));
    assert_eq!(w.escrow.deposit_funds(id, 12), refused(EscrowError::InvalidDepositAmount));
    assert_eq!(
        w.escrow.deposit_funds(id, i128::MAX),
        refused(EscrowError::InvalidDepositAmount)
    );
    assert_eq!(w.escrow.get_contract(id).unwrap().status, ContractStatus::Created);
    assert_eq!(w.escrow.deposit_funds(id, 4), Ok(true));
    let data = w.escrow.get_contract(id).unwrap();
    assert_eq!(data.total_deposited, 4);
    assert_eq!(data.status, ContractStatus::Funded);
    assert_eq!(w.escrow.deposit_funds(id, 7), Ok(true));
    assert_eq!(w.escrow.get_contract(id).unwrap().total_deposited, 11);
    assert_eq!(w.escrow.deposit_funds(id, 1), refused(EscrowError::InvalidDepositAmount));
}

#[test]
fn a_cancelled_contract_takes_deposits_and_stays_cancelled() {
    let mut w = world();
    let id = w.open(&[5, 6]);
    let client = w.client.clone();
    assert_eq!(w.cancel(id, &client), Ok(true));
    assert_eq!(w.escrow.deposit_funds(id, 4), Ok(true));
    let data = w.escrow.get_contract(id).unwrap();
    assert_eq!(data.status, ContractStatus::Cancelled);
    assert_eq!(data.total_deposited, 4);
}

#[test]
fn releases_are_refused_for_these_reasons() {
    let mut w = world();
    let id = w.open(&[5, 6]);
    let call = signed(&[]);
    assert_eq!(
        w.escrow.release_milestone(&call, 9, 0),
        refused(EscrowError::ContractNotFound)
    );
    assert_eq!(
        w.escrow.release_milestone(&call, id, 0),
        refused(EscrowError::InvalidState)
    );
    assert_eq!(w.escrow.deposit_funds(id, 5), Ok(true));
    assert_eq!(
        w.escrow.release_milestone(&call, id, 2),
        refused(EscrowError::IndexOutOfBounds)
    );
    assert_eq!(
        w.escrow.release_milestone(&call, id, 1),
        refused(EscrowError::InsufficientFunds)
    );
    assert_eq!(w.escrow.release_milestone(&call, id, 0), Ok(true));
    assert_eq!(
        w.escrow.release_milestone(&call, id, 0),
        refused(EscrowError::MilestoneAlreadyReleased)
    );
    let mut ms = w.escrow.milestones.remove(&id).unwrap();
    ms[1].refunded = true;
    w.escrow.milestones.set(id, ms);
    assert!(!w.escrow.check_accounting_invariant(id));
    let mut data = w.escrow.contracts.remove(&id).unwrap();
    data.total_deposited = 11;
    data.refunded_amount = 6;
    w.escrow.contracts.set(id, data);
    assert!(w.escrow.check_accounting_invariant(id));
    assert_eq!(
        w.escrow.release_milestone(&call, id, 1),
        refused(EscrowError::AlreadyRefunded)
    );
}

#[test]
fn the_last_release_completes_the_contract() {
    let mut w = world();
    let id = w.open(&[5, 6]);
    let other = w.open(&[9]);
    let untouched = w.escrow.get_contract(other).unwrap();
    let call = signed(&[]);
    assert_eq!(w.escrow.deposit_funds(id, 11), Ok(true));
    assert_eq!(w.escrow.release_milestone(&call, id, 1), Ok(true));
    let data = w.escrow.get_contract(id).unwrap();
    assert_eq!(data.released_amount, 6);
    assert_eq!(data.status, ContractStatus::Funded);
    assert_eq!(w.escrow.release_milestone(&call, id, 0), Ok(true));
    let data = w.escrow.get_contract(id).unwrap();
    assert_eq!(data.released_amount, 11);
    assert_eq!(data.status, ContractStatus::Completed);
    assert_eq!(w.escrow.get_contract(other).unwrap(), untouched);
    assert_eq!(w.escrow.get_contract(7), refused(EscrowError::ContractNotFound));
    assert_eq!(w.escrow.get_milestones(7), refused(EscrowError::ContractNotFound));
}

#[test]
fn released_amounts_add_up() {
    let mut w = world();
    let id = w.open(&[5, 6, 8]);
    let call = signed(&[]);
    assert_eq!(w.escrow.deposit_funds(id, 19), Ok(true));
    assert_eq!(w.escrow.release_milestone(&call, id, 2), Ok(true));
    assert_eq!(w.escrow.release_milestone(&call, id, 0), Ok(true));
    let data = w.escrow.get_contract(id).unwrap();
    let ms = w.escrow.milestones.get(&id).unwrap();
    assert_eq!(Escrow::calculate_released_amount(&data, ms), 13);
    assert_eq!(data.released_amount, 13);
    let mut wrong = data.clone();
    wrong.released_amount = 4;
    assert_eq!(Escrow::calculate_released_amount(&wrong, ms), 13);
}

#[test]
fn before_funding_the_two_parties_can_cancel() {
    let mut w = world();
    let (client, freelancer, arbiter, stranger) = (
        w.client.clone(),
        w.freelancer.clone(),
        w.arbiter.clone(),
        w.stranger.clone(),
    );
    let id = w.open(&[5]);
    assert_eq!(w.cancel(9, &client), refused(EscrowError::ContractNotFound));
    assert_eq!(w.cancel(id, &arbiter), refused(EscrowError::UnauthorizedRole));
    assert_eq!(w.cancel(id, &stranger), refused(EscrowError::UnauthorizedRole));
    assert_eq!(
        w.escrow.cancel_contract(&signed(&[&stranger]), id, client.clone()),
        Err(Trap::Unauthorized(client.clone()))
    );
    assert!(w.escrow.events.is_empty());
    assert_eq!(w.cancel(id, &client), Ok(true));
    assert_eq!(w.escrow.get_contract(id).unwrap().status, ContractStatus::Cancelled);
    assert_eq!(
        w.escrow.events,
        vec![Event::ContractCancelled {
            contract_id: id,
            caller: client.clone(),
            status: ContractStatus::Cancelled,
            timestamp: 50,
        }]
    );
    assert_eq!(w.cancel(id, &client), refused(EscrowError::AlreadyCancelled));
    let id = w.open(&[5]);
    assert_eq!(w.cancel(id, &freelancer), Ok(true));
}

#[test]
fn a_funded_contract_is_cancelled_by_role() {
    let mut w = world();
    let (client, freelancer, arbiter, stranger) = (
        w.client.clone(),
        w.freelancer.clone(),
        w.arbiter.clone(),
        w.stranger.clone(),
    );
    let funded = |w: &mut World| {
        let id = w.open(&[5, 6]);
        assert_eq!(w.escrow.deposit_funds(id, 11), Ok(true));
        id
    };
    let id = funded(&mut w);
    assert_eq!(w.cancel(id, &client), Ok(true));
    let id = funded(&mut w);
    assert_eq!(w.escrow.release_milestone(&signed(&[]), id, 0), Ok(true));
    assert_eq!(w.cancel(id, &client), refused(EscrowError::MilestonesAlreadyReleased));
    assert_eq!(w.cancel(id, &stranger), refused(EscrowError::UnauthorizedRole));
    assert_eq!(w.cancel(id, &freelancer), Ok(true));
    let id = funded(&mut w);
    assert_eq!(w.escrow.release_milestone(&signed(&[]), id, 0), Ok(true));
    assert_eq!(w.cancel(id, &arbiter), Ok(true));
}

#[test]
fn other_statuses_limit_cancellation() {
    let mut w = world();
    let (client, freelancer, arbiter) =
        (w.client.clone(), w.freelancer.clone(), w.arbiter.clone());
    let id = w.open(&[5]);
    w.set_status(id, ContractStatus::Disputed);
    assert_eq!(w.cancel(id, &client), refused(EscrowError::UnauthorizedRole));
    assert_eq!(w.cancel(id, &freelancer), refused(EscrowError::UnauthorizedRole));
    assert_eq!(w.cancel(id, &arbiter), Ok(true));
    let id = w.open(&[5]);
    w.set_status(id, ContractStatus::Refunded);
    assert_eq!(w.cancel(id, &arbiter), refused(EscrowError::InvalidStatusTransition));
    let id = w.open(&[5]);
    assert_eq!(w.escrow.deposit_funds(id, 5), Ok(true));
    assert_eq!(w.escrow.release_milestone(&signed(&[]), id, 0), Ok(true));
    assert_eq!(w.cancel(id, &client), refused(EscrowError::InvalidStatusTransition));
}

#[test]
fn the_check_finds_books_that_do_not_balance() {
    let mut w = world();
    let id = w.open(&[5, 6]);
    assert!(w.escrow.check_accounting_invariant(id));
    assert!(w.escrow.check_accounting_invariant(77));
    for spoil in 0..6 {
        let mut data = w.escrow.get_contract(id).unwrap();
        let kept = data.clone();
        match spoil {
            0 => data.total_deposited = 1,
            1 => data.released_amount = 1,
            2 => data.refunded_amount = -1,
            3 => data.status = ContractStatus::Completed,
            4 => data.milestones = w.amounts(&[5, 7]),
            _ => data.milestones = w.amounts(&[5]),
        }
        w.escrow.contracts.set(id, data);
        assert!(!w.escrow.check_accounting_invariant(id));
        w.escrow.contracts.set(id, kept);
        assert!(w.escrow.check_accounting_invariant(id));
    }
    let _ = w.escrow.milestones.remove(&id);
    assert!(!w.escrow.check_accounting_invariant(id));
}

#[test]
fn error_codes_are_fixed() {
    assert_eq!(EscrowError::InvalidParticipant.code(), 1);
    assert_eq!(EscrowError::EmptyMilestones.code(), 2);
    assert_eq!(EscrowError::InvalidMilestoneAmount.code(), 3);
    assert_eq!(EscrowError::InvalidDepositAmount.code(), 4);
    assert_eq!(EscrowError::InvalidMilestone.code(), 5);
    assert_eq!(EscrowError::UnauthorizedRole.code(), 6);
    assert_eq!(EscrowError::InvalidStatusTransition.code(), 7);
    assert_eq!(EscrowError::AlreadyCancelled.code(), 8);
    assert_eq!(EscrowError::ContractNotFound.code(), 9);
    assert_eq!(EscrowError::MilestonesAlreadyReleased.code(), 10);
    assert_eq!(EscrowError::ContractFinalized.code(), 25);
}
