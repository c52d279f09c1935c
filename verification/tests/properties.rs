use escrow::{ContractStatus, Escrow, EscrowError, Invocation, LedgerPolicy, Trap};
use soroban_sdk::{Address, Env};

const CLIENT: &str = "GAAQCAIBAEAQCAIBAEAQCAIBAEAQCAIBAEAQCAIBAEAQCAIBAEAQDZ7H";
const FREELANCER: &str = "GABAEAQCAIBAEAQCAIBAEAQCAIBAEAQCAIBAEAQCAIBAEAQCAIBAEJXA";

const MAX_MS: u64 = 8;
const MAX_AMOUNT: i128 = 1_000_000_000;
const MAX_OPS: u64 = 20;
const CASES: u64 = 24;

/// A small generator of numbers, the same ones in every run.
struct Numbers(u64);

impl Numbers {
    fn next(&mut self) -> u64 {
        self.0 = self
            .0
            .wrapping_mul(6364136223846793005)
            .wrapping_add(1442695040888963407);
        self.0 >> 33
    }

    fn below(&mut self, bound: u64) -> u64 {
        self.next() % bound
    }

    fn amounts(&mut self) -> Vec<i128> {
        let n = 1 + self.below(MAX_MS);
        (0..n)
            .map(|_| 1 + (self.next() as i128) % MAX_AMOUNT)
            .collect()
    }
}

struct Harness {
    env: Env,
    escrow: Escrow,
    client_addr: Address,
    freelancer_addr: Address,
}

impl Harness {
    fn new() -> Self {
        let env = Env::default();
        let client_addr = Address::from_str(&env, CLIENT);
        let freelancer_addr = Address::from_str(&env, FREELANCER);
        Harness {
            env,
            escrow: Escrow::new(LedgerPolicy {
                pending_migration_ttl_ledgers: 100,
                admin_rotation_min_delay_ledgers: 10,
            }),
            client_addr,
            freelancer_addr,
        }
    }

    fn call(&self) -> Invocation {
        Invocation {
            timestamp: 0,
            sequence: 1,
            authorized: vec![self.client_addr.clone(), self.freelancer_addr.clone()],
        }
    }

    fn open(&mut self, amounts: &[i128]) -> u32 {
        let call = self.call();
        self.escrow
            .create_contract(
                &call,
                self.client_addr.clone(),
                self.freelancer_addr.clone(),
                None,
                soroban_sdk::Vec::from_slice(&self.env, amounts),
                None,
                None,
                None,
            )
            .unwrap()
    }

    fn release(&mut self, id: u32, i: u32) -> Result<bool, Trap> {
        let call = self.call();
        self.escrow.release_milestone(&call, id, i)
    }

    fn cancel(&mut self, id: u32) -> Result<bool, Trap> {
        let call = self.call();
        self.escrow
            .cancel_contract(&call, id, self.client_addr.clone())
    }

    fn assert_invariant(&self, id: u32) {
        let d = self.escrow.get_contract(id).unwrap();
        let available = d.total_deposited - d.released_amount - d.refunded_amount;
        assert!(available >= 0);
        assert_eq!(
            d.total_deposited,
            d.released_amount + d.refunded_amount + available
        );
        assert!(self.escrow.check_accounting_invariant(id));
    }
}

fn sum(amounts: &[i128]) -> i128 {
    amounts.iter().copied().sum()
}

#[test]
fn prop_accounting_invariant_holds_under_random_ops() {
    for seed in 0..CASES {
        let mut numbers = Numbers(seed);
        let amounts = numbers.amounts();
        let total = sum(&amounts);
        let mut h = Harness::new();
        let id = h.open(&amounts);
        h.assert_invariant(id);
        let ops = numbers.below(MAX_OPS + 1);
        for _ in 0..ops {
            match numbers.below(3) {
                0 => {
                    let amount = 1 + (numbers.next() as i128) % (2 * total);
                    let _ = h.escrow.deposit_funds(id, amount);
                }
                1 => {
                    let i = numbers.below(amounts.len() as u64 + 2) as u32;
                    let _ = h.release(id, i);
                }
                _ => {
                    let _ = h.cancel(id);
                }
            }
            h.assert_invariant(id);
        }
    }
}

#[test]
fn prop_full_release_sequence_invariant() {
    for seed in 0..CASES {
        let amounts = Numbers(seed).amounts();
        let total = sum(&amounts);
        let mut h = Harness::new();
        let id = h.open(&amounts);

        assert_eq!(h.escrow.deposit_funds(id, total), Ok(true));
        h.assert_invariant(id);
        for i in 0..amounts.len() as u32 {
            assert_eq!(h.release(id, i), Ok(true));
            h.assert_invariant(id);
        }

        let data = h.escrow.get_contract(id).unwrap();
        assert_eq!(data.status, ContractStatus::Completed);
        assert_eq!(data.released_amount, total);
        assert_eq!(data.refunded_amount, 0);
        assert_eq!(data.total_deposited, total);
    }
}

#[test]
fn prop_double_release_rejected_invariant_preserved() {
    for seed in 0..CASES {
        let mut numbers = Numbers(seed);
        let amounts = numbers.amounts();
        let target = numbers.below(amounts.len() as u64) as u32;
        let mut h = Harness::new();
        let id = h.open(&amounts);

        assert_eq!(h.escrow.deposit_funds(id, sum(&amounts)), Ok(true));
        assert_eq!(h.release(id, target), Ok(true));
        h.assert_invariant(id);

        let before = h.escrow.get_contract(id).unwrap();
        let refused = h.release(id, target);
        let error = if amounts.len() == 1 {
            EscrowError::InvalidState
        } else {
            EscrowError::MilestoneAlreadyReleased
        };
        assert_eq!(refused, Err(Trap::Error(error)));
        assert_eq!(h.escrow.get_contract(id).unwrap(), before);
        h.assert_invariant(id);
    }
}

#[test]
fn prop_incremental_deposit_invariant() {
    for seed in 0..CASES {
        let amounts = Numbers(seed).amounts();
        let mut h = Harness::new();
        let id = h.open(&amounts);
        for a in &amounts {
            assert_eq!(h.escrow.deposit_funds(id, *a), Ok(true));
            h.assert_invariant(id);
        }
        let data = h.escrow.get_contract(id).unwrap();
        assert_eq!(data.status, ContractStatus::Funded);
        assert_eq!(data.total_deposited, sum(&amounts));
    }
}

#[test]
fn prop_cancel_preserves_invariant() {
    for seed in 0..CASES {
        let amounts = Numbers(seed).amounts();
        let mut h = Harness::new();
        let id = h.open(&amounts);
        let _ = h.escrow.deposit_funds(id, amounts[0]);
        h.assert_invariant(id);
        assert_eq!(h.cancel(id), Ok(true));
        h.assert_invariant(id);
        let data = h.escrow.get_contract(id).unwrap();
        assert_eq!(data.status, ContractStatus::Cancelled);
    }
}

#[test]
fn prop_overfund_rejected_invariant_preserved() {
    for seed in 0..CASES {
        let amounts = Numbers(seed).amounts();
        let mut h = Harness::new();
        let id = h.open(&amounts);
        assert_eq!(h.escrow.deposit_funds(id, sum(&amounts)), Ok(true));
        h.assert_invariant(id);
        assert_eq!(
            h.escrow.deposit_funds(id, 1),
            Err(Trap::Error(EscrowError::InvalidDepositAmount))
        );
        h.assert_invariant(id);
    }
}
