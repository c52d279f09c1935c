use escrow::accounts::calculate_protocol_fee;
use escrow::{
    ContractStatus, Escrow, EscrowError, Event, Invocation, LedgerPolicy, ReleaseAuthorization,
    Trap,
};
use soroban_sdk::{Address, Env, IntoVal, Symbol, TryFromVal, Val};

const NAMES: [&str; 4] = [
    "GAAQCAIBAEAQCAIBAEAQCAIBAEAQCAIBAEAQCAIBAEAQCAIBAEAQDZ7H",
    "GABAEAQCAIBAEAQCAIBAEAQCAIBAEAQCAIBAEAQCAIBAEAQCAIBAEJXA",
    "GABQGAYDAMBQGAYDAMBQGAYDAMBQGAYDAMBQGAYDAMBQGAYDAMBQHGPC",
    "GACAIBAEAQCAIBAEAQCAIBAEAQCAIBAEAQCAIBAEAQCAIBAEAQCAJJHP",
];

struct World {
    env: Env,
    escrow: Escrow,
    client: Address,
    freelancer: Address,
    arbiter: Address,
    stranger: Address,
    id: u32,
}

/// A contract with milestones of 20_000, 30_001 and 50_000, fully funded, with
/// approvals that last 100 seconds.
fn funded() -> World {
    let env = Env::default();
    let who = |i: usize| Address::from_str(&env, NAMES[i]);
    let mut w = World {
        escrow: Escrow::new(LedgerPolicy {
            pending_migration_ttl_ledgers: 100,
            admin_rotation_min_delay_ledgers: 10,
        }),
        client: who(0),
        freelancer: who(1),
        arbiter: who(2),
        stranger: who(3),
        env,
        id: 0,
    };
    let milestones = soroban_sdk::Vec::from_array(&w.env, [20_000_i128, 30_001, 50_000]);
    w.id = w
        .escrow
        .create_contract(
            &at(0, &[&w.client]),
            w.client.clone(),
            w.freelancer.clone(),
            Some(w.arbiter.clone()),
            milestones,
            None,
            None,
            Some(100),
        )
        .unwrap();
    assert_eq!(w.escrow.deposit_funds(w.id, 100_001), Ok(true));
    w
}

fn at(timestamp: u64, signers: &[&Address]) -> Invocation {
    Invocation {
        timestamp,
        sequence: 7,
        authorized: signers.iter().map(|a| (*a).clone()).collect(),
    }
}

fn refused<T>(error: EscrowError) -> Result<T, Trap> {
    Err(Trap::Error(error))
}

impl World {
    fn approve_all(&mut self, now: u64) {
        for i in 0..3 {
            assert!(self.escrow.approve_milestone(&at(now, &[]), self.id, i));
        }
    }

    fn release(&mut self, now: u64, caller: &Address, i: u32) -> Result<bool, Trap> {
        self.escrow
            .release_milestone_impl(&at(now, &[caller]), self.id, caller.clone(), i)
    }

    fn release_list(&mut self, now: u64, caller: &Address, list: &[u32]) -> Result<i128, Trap> {
        let indices = soroban_sdk::Vec::from_slice(&self.env, list);
        self.escrow
            .release_milestones(&at(now, &[caller]), self.id, caller.clone(), &indices)
    }

    /// A list of indices in which `None` stands for an item that is no index.
    fn mixed(&self, items: &[Option<u32>]) -> soroban_sdk::Vec<u32> {
        let mut list: soroban_sdk::Vec<Val> = soroban_sdk::Vec::new(&self.env);
        for item in items {
            list.push_back(match item {
                Some(index) => index.into_val(&self.env),
                None => Symbol::new(&self.env, "one").into_val(&self.env),
            });
        }
        soroban_sdk::Vec::try_from_val(&self.env, &list.to_val()).unwrap()
    }

    fn set_mode(&mut self, mode: ReleaseAuthorization) {
        let mut data = self.escrow.contracts.remove(&self.id).unwrap();
        data.release_authorization = mode;
        self.escrow.contracts.set(self.id, data);
    }
}

#[test]
fn fees_are_rounded_down() {
    assert_eq!(calculate_protocol_fee(30_001, 250), 750);
    assert_eq!(calculate_protocol_fee(39, 250), 0);
    assert_eq!(calculate_protocol_fee(40, 250), 1);
    assert_eq!(calculate_protocol_fee(10_000_000_000_000, 10_000), 10_000_000_000_000);
}

#[test]
fn a_release_by_the_client_is_recorded() {
    let mut w = funded();
    let client = w.client.clone();
    w.escrow.initialized = true;
    w.escrow.protocol_fee_bps = Some(250);
    w.approve_all(10);
    assert_eq!(w.release(20, &client, 1), Ok(true));
    let data = w.escrow.get_contract(w.id).unwrap();
    assert_eq!(data.released_amount, 30_001);
    assert_eq!(data.status, ContractStatus::Funded);
    assert_eq!(w.escrow.accumulated_protocol_fees, 750);
    assert!(!w.escrow.approval_times.has(&(w.id, 1)));
    assert!(w.escrow.approval_times.has(&(w.id, 0)));
    assert_eq!(
        w.escrow.events,
        vec![Event::MilestoneReleased {
            contract_id: w.id,
            milestone_index: 1,
            caller: client.clone(),
            amount: 30_001,
            released_amount: 30_001,
            timestamp: 20,
        }]
    );
    assert!(w.escrow.check_accounting_invariant(w.id));

    assert_eq!(w.release(20, &client, 0), Ok(true));
    assert_eq!(w.escrow.reputation_credits.get(&w.freelancer), None);
    assert_eq!(w.release(20, &client, 2), Ok(true));
    let data = w.escrow.get_contract(w.id).unwrap();
    assert_eq!(data.status, ContractStatus::Completed);
    assert_eq!(w.escrow.accumulated_protocol_fees, 750 + 500 + 1250);
    assert_eq!(w.escrow.reputation_credits.get(&w.freelancer), Some(&1));
}

#[test]
fn no_fee_is_due_before_initialization() {
    let mut w = funded();
    let client = w.client.clone();
    w.escrow.protocol_fee_bps = Some(250);
    w.approve_all(10);
    assert_eq!(w.release(20, &client, 1), Ok(true));
    assert_eq!(w.escrow.accumulated_protocol_fees, 0);
}

#[test]
fn a_release_by_a_caller_is_refused_for_these_reasons() {
    let mut w = funded();
    let (client, stranger) = (w.client.clone(), w.stranger.clone());
    w.escrow.paused = true;
    assert_eq!(w.release(20, &client, 0), refused(EscrowError::ContractPaused));
    w.escrow.paused = false;
    assert_eq!(
        w.escrow
            .release_milestone_impl(&at(20, &[&stranger]), w.id, client.clone(), 0),
        Err(Trap::Unauthorized(client.clone()))
    );
    w.escrow.finalized.set(w.id, true);
    assert_eq!(w.release(20, &client, 0), refused(EscrowError::ContractFinalized));
    w.escrow.finalized.set(w.id, false);
    assert_eq!(
        w.escrow
            .release_milestone_impl(&at(20, &[&client]), 9, client.clone(), 0),
        refused(EscrowError::ContractNotFound)
    );
    assert_eq!(w.release(20, &stranger, 0), refused(EscrowError::UnauthorizedRole));
    assert_eq!(w.release(20, &client, 3), refused(EscrowError::IndexOutOfBounds));
    assert_eq!(w.release(20, &client, 0), refused(EscrowError::InsufficientApprovals));
    w.approve_all(10);
    assert_eq!(w.release(111, &client, 0), refused(EscrowError::ApprovalExpired));
    assert_eq!(w.release(110, &client, 0), Ok(true));
    assert_eq!(
        w.release(110, &client, 0),
        refused(EscrowError::MilestoneAlreadyReleased)
    );
    assert_eq!(
        w.escrow.cancel_contract(&at(0, &[&w.freelancer]), w.id, w.freelancer.clone()),
        Ok(true)
    );
    assert_eq!(w.release(110, &client, 1), refused(EscrowError::InvalidState));
}

#[test]
fn each_mode_names_its_roles() {
    let cases = [
        (ReleaseAuthorization::ClientOnly, [true, false, false, false]),
        (ReleaseAuthorization::ArbiterOnly, [false, false, true, false]),
        (ReleaseAuthorization::ClientAndArbiter, [true, false, true, false]),
        (ReleaseAuthorization::MultiSig, [true, true, false, false]),
    ];
    for (mode, allowed) in cases {
        for i in 0..4 {
            let mut w = funded();
            w.set_mode(mode);
            w.approve_all(10);
            let caller = match i {
                0 => w.client.clone(),
                1 => w.freelancer.clone(),
                2 => w.arbiter.clone(),
                _ => w.stranger.clone(),
            };
            let expected = if allowed[i] {
                Ok(true)
            } else {
                refused(EscrowError::UnauthorizedRole)
            };
            assert_eq!(w.release(20, &caller, 0), expected);
            let expected = if allowed[i] {
                Ok(80_001)
            } else {
                refused(EscrowError::UnauthorizedRole)
            };
            assert_eq!(w.release_list(20, &caller, &[2, 1]), expected);
        }
    }
}

#[test]
fn a_list_is_released_at_once() {
    let mut w = funded();
    let client = w.client.clone();
    w.escrow.protocol_fee_bps = Some(250);
    w.approve_all(10);
    assert_eq!(w.release_list(20, &client, &[2, 0]), Ok(70_000));
    let data = w.escrow.get_contract(w.id).unwrap();
    assert_eq!(data.released_amount, 70_000);
    assert_eq!(data.status, ContractStatus::Funded);
    assert_eq!(w.escrow.accumulated_protocol_fees, 1250 + 500);
    assert!(!w.escrow.approval_times.has(&(w.id, 0)));
    assert!(w.escrow.approval_times.has(&(w.id, 1)));
    assert!(!w.escrow.approval_times.has(&(w.id, 2)));
    let ms = w.escrow.milestones.get(&w.id).unwrap();
    assert_eq!(
        ms.iter().map(|m| m.released).collect::<Vec<bool>>(),
        vec![true, false, true]
    );
    assert!(w.escrow.check_accounting_invariant(w.id));
    assert_eq!(w.release_list(20, &client, &[1]), Ok(30_001));
    let data = w.escrow.get_contract(w.id).unwrap();
    assert_eq!(data.status, ContractStatus::Completed);
    assert!(w.escrow.events.is_empty());
    assert_eq!(w.escrow.reputation_credits.get(&w.freelancer), None);
}

#[test]
fn a_list_gives_what_single_releases_give() {
    let mut one = funded();
    let mut many = funded();
    let client = one.client.clone();
    one.approve_all(10);
    many.approve_all(10);
    assert_eq!(one.release(20, &client, 2), Ok(true));
    assert_eq!(one.release(20, &client, 1), Ok(true));
    let client = many.client.clone();
    assert_eq!(many.release_list(20, &client, &[2, 1]), Ok(80_001));
    assert_eq!(
        one.escrow.get_contract(one.id).unwrap(),
        many.escrow.get_contract(many.id).unwrap()
    );
    assert_eq!(
        one.escrow.milestones.get(&one.id),
        many.escrow.milestones.get(&many.id)
    );
}

#[test]
fn a_list_is_refused_as_a_whole() {
    let mut w = funded();
    let (client, stranger) = (w.client.clone(), w.stranger.clone());
    assert_eq!(w.release_list(20, &client, &[]), refused(EscrowError::EmptyRefundRequest));
    assert_eq!(
        w.release_list(20, &client, &[1, 0, 1]),
        refused(EscrowError::DuplicateMilestoneInRefund)
    );
    let indices = soroban_sdk::Vec::from_array(&w.env, [0u32]);
    assert_eq!(
        w.escrow
            .release_milestones(&at(20, &[&stranger]), w.id, client.clone(), &indices),
        Err(Trap::Unauthorized(client.clone()))
    );
    assert_eq!(
        w.escrow
            .release_milestones(&at(20, &[&client]), 9, client.clone(), &indices),
        refused(EscrowError::ContractNotFound)
    );
    let no_indices = w.mixed(&[None]);
    assert_eq!(
        w.escrow
            .release_milestones(&at(20, &[&client]), w.id, client.clone(), &no_indices),
        Err(Trap::Conversion)
    );
    w.escrow.finalized.set(w.id, true);
    assert_eq!(w.release_list(20, &client, &[0]), refused(EscrowError::ContractFinalized));
    let _ = w.escrow.finalized.remove(&w.id);
    assert_eq!(w.release_list(20, &client, &[0, 3]), refused(EscrowError::IndexOutOfBounds));
    assert!(w.escrow.approve_milestone(&at(10, &[]), w.id, 0));
    assert_eq!(
        w.release_list(20, &client, &[0, 1]),
        refused(EscrowError::InsufficientApprovals)
    );
    w.approve_all(10);
    assert_eq!(w.release_list(111, &client, &[0, 1]), refused(EscrowError::ApprovalExpired));
    assert_eq!(w.release(20, &client, 1), Ok(true));
    assert_eq!(
        w.release_list(20, &client, &[0, 1]),
        refused(EscrowError::MilestoneAlreadyReleased)
    );
    let data = w.escrow.get_contract(w.id).unwrap();
    assert_eq!(data.released_amount, 30_001);
}

#[test]
fn a_list_needs_money_for_all_of_it() {
    let mut w = funded();
    let client = w.client.clone();
    let mut data = w.escrow.contracts.remove(&w.id).unwrap();
    data.total_deposited = 70_000;
    w.escrow.contracts.set(w.id, data);
    w.approve_all(10);
    assert_eq!(
        w.release_list(20, &client, &[0, 1, 2]),
        refused(EscrowError::InsufficientFunds)
    );
    assert_eq!(w.release_list(20, &client, &[0, 2]), Ok(70_000));
    assert_eq!(w.release(20, &client, 1), refused(EscrowError::InsufficientFunds));
}

#[test]
fn the_items_of_a_list_are_read_in_pairs() {
    let mut w = funded();
    let client = w.client.clone();
    let duplicate = refused(EscrowError::DuplicateMilestoneInRefund);
    let cases: [(&[Option<u32>], Result<i128, Trap>); 7] = [
        (&[Some(1), Some(1), None], duplicate.clone()),
        (&[Some(1), None, Some(1)], Err(Trap::Conversion)),
        (&[None, Some(1), Some(1)], Err(Trap::Conversion)),
        (&[Some(0), Some(1), Some(1), None], Err(Trap::Conversion)),
        (&[Some(0), Some(1), Some(0), None], duplicate.clone()),
        (&[Some(0), Some(1), Some(2), Some(1)], duplicate),
        (&[None, None], Err(Trap::Conversion)),
    ];
    for (items, expected) in cases {
        let list = w.mixed(items);
        assert_eq!(
            w.escrow.release_milestones(&at(20, &[]), w.id, client.clone(), &list),
            expected
        );
    }
}

#[test]
fn an_item_that_stands_alone_is_read_with_the_milestones() {
    let mut w = funded();
    let client = w.client.clone();
    let list = w.mixed(&[None]);
    assert_eq!(
        w.escrow.release_milestones(&at(20, &[]), w.id, client.clone(), &list),
        Err(Trap::Unauthorized(client.clone()))
    );
    assert_eq!(
        w.escrow.release_milestones(&at(20, &[&client]), 9, client.clone(), &list),
        refused(EscrowError::ContractNotFound)
    );
    w.escrow.finalized.set(w.id, true);
    assert_eq!(
        w.escrow.release_milestones(&at(20, &[&client]), w.id, client.clone(), &list),
        refused(EscrowError::ContractFinalized)
    );
    w.escrow.finalized.set(w.id, false);
    assert_eq!(
        w.escrow.cancel_contract(&at(0, &[&client]), w.id, client.clone()),
        Ok(true)
    );
    assert_eq!(
        w.escrow.release_milestones(&at(20, &[&client]), w.id, client.clone(), &list),
        Err(Trap::Conversion)
    );
}

#[test]
fn a_list_with_items_that_are_indices_is_released() {
    let mut w = funded();
    let client = w.client.clone();
    w.approve_all(10);
    let list = w.mixed(&[Some(2), Some(0)]);
    assert_eq!(
        w.escrow.release_milestones(&at(20, &[&client]), w.id, client.clone(), &list),
        Ok(70_000)
    );
}

#[test]
fn fees_of_a_list_that_do_not_fit_stop_the_release() {
    let mut w = funded();
    let client = w.client.clone();
    w.escrow.protocol_fee_bps = Some(250);
    w.escrow.accumulated_protocol_fees = i128::MAX - 1749;
    let list = w.mixed(&[Some(2), Some(0)]);
    assert_eq!(
        w.escrow
            .release_milestones_checked(&at(20, &[&client]), w.id, client.clone(), &list),
        Some(refused(EscrowError::InsufficientApprovals))
    );
    assert_eq!(
        w.escrow
            .release_milestones(&at(20, &[&client]), w.id, client.clone(), &list),
        refused(EscrowError::InsufficientApprovals)
    );
    w.approve_all(10);
    assert_eq!(
        w.escrow
            .release_milestones_checked(&at(20, &[&client]), w.id, client.clone(), &list),
        None
    );
    assert_eq!(w.escrow.accumulated_protocol_fees, i128::MAX - 1749);
    assert_eq!(w.escrow.get_contract(w.id).unwrap().released_amount, 0);
    assert!(w.escrow.approval_times.has(&(w.id, 0)));
    w.escrow.accumulated_protocol_fees = i128::MAX - 1750;
    assert_eq!(
        w.escrow
            .release_milestones_checked(&at(20, &[&client]), w.id, client.clone(), &list),
        Some(Ok(70_000))
    );
    assert_eq!(w.escrow.accumulated_protocol_fees, i128::MAX);
}

#[test]
fn a_fee_that_does_not_fit_stops_the_release() {
    let mut w = funded();
    let client = w.client.clone();
    w.escrow.initialized = true;
    w.escrow.protocol_fee_bps = Some(250);
    w.escrow.accumulated_protocol_fees = i128::MAX - 749;
    let call = at(20, &[&client]);
    assert_eq!(
        w.escrow.release_milestone_impl_checked(&call, w.id, client.clone(), 1),
        Some(refused(EscrowError::InsufficientApprovals))
    );
    w.approve_all(10);
    assert_eq!(
        w.escrow.release_milestone_impl_checked(&call, w.id, client.clone(), 1),
        None
    );
    assert_eq!(w.escrow.get_contract(w.id).unwrap().released_amount, 0);
    w.escrow.accumulated_protocol_fees = i128::MAX - 750;
    assert_eq!(
        w.escrow.release_milestone_impl_checked(&call, w.id, client.clone(), 1),
        Some(Ok(true))
    );
    assert_eq!(w.escrow.accumulated_protocol_fees, i128::MAX);
}

#[test]
fn a_full_count_of_ratings_stops_the_last_release_alone() {
    let mut w = funded();
    let client = w.client.clone();
    w.approve_all(10);
    w.escrow.reputation_credits.set(w.freelancer.clone(), i128::MAX);
    assert_eq!(w.release(20, &client, 0), Ok(true));
    let call = at(20, &[&client]);
    assert_eq!(
        w.escrow.release_milestone_impl_checked(&call, w.id, client.clone(), 2),
        Some(Ok(true))
    );
    assert_eq!(
        w.escrow.release_milestone_impl_checked(&call, w.id, client.clone(), 1),
        None
    );
    assert_eq!(w.escrow.get_contract(w.id).unwrap().released_amount, 70_000);
    w.escrow
        .reputation_credits
        .set(w.freelancer.clone(), i128::MAX - 1);
    assert_eq!(
        w.escrow.release_milestone_impl_checked(&call, w.id, client.clone(), 1),
        Some(Ok(true))
    );
    assert_eq!(
        w.escrow.reputation_credits.get(&w.freelancer),
        Some(&i128::MAX)
    );
}
