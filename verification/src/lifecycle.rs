//! Opening, funding, approving, releasing and cancelling contracts.

use soroban_sdk::{Address, Bytes, Symbol};
use vstd::prelude::*;

use crate::accounts;
use crate::host;
use crate::host::{amount_at, amounts_len, same_address};
use crate::state;
use crate::state::{Escrow, EscrowState};
use crate::types::{
    ContractStatus, EscrowBounds, EscrowContractData, EscrowError, Event, Invocation, Milestone,
    ReleaseAuthorization, Trap, MAX_MILESTONES, MAX_TOTAL_ESCROW_STROOPS,
};

verus! {

/// Why a list of milestone amounts is not accepted: the first item that is not
/// an amount, or not a positive one, decides.
pub open spec fn amounts_fault(items: Seq<Option<i128>>) -> Option<Trap>
    decreases items.len(),
{
    if items.len() == 0 {
        None
    } else if amounts_fault(items.drop_last()) is Some {
        amounts_fault(items.drop_last())
    } else {
        match items.last() {
            None => Some(Trap::Conversion),
            Some(amount) => if amount <= 0 {
                state::refuse(EscrowError::InvalidMilestoneAmount)
            } else {
                None
            },
        }
    }
}

/// The sum of the amounts in a list.
pub open spec fn amounts_total(items: Seq<Option<i128>>) -> int
    decreases items.len(),
{
    if items.len() == 0 {
        0
    } else {
        amounts_total(items.drop_last()) + match items.last() {
            None => 0,
            Some(amount) => amount as int,
        }
    }
}

/// The milestones of a new contract.
pub open spec fn fresh_milestones(items: Seq<Option<i128>>) -> Seq<Milestone> {
    items.map_values(
        |item: Option<i128>| Milestone { amount: item->0, released: false, refunded: false },
    )
}

/// Why a contract cannot be opened, in the order in which the reasons count.
pub open spec fn opening_refusal(
    call: Invocation,
    client: Address,
    freelancer: Address,
    arbiter: Option<Address>,
    items: Seq<Option<i128>>,
) -> Option<Trap> {
    if !call.covers(client) {
        Some(Trap::Unauthorized(client))
    } else if client == freelancer || arbiter == Some(client) || arbiter == Some(freelancer) {
        state::refuse(EscrowError::InvalidParticipant)
    } else if items.len() == 0 {
        state::refuse(EscrowError::EmptyMilestones)
    } else if items.len() > MAX_MILESTONES {
        state::refuse(EscrowError::TooManyMilestones)
    } else if amounts_fault(items) is Some {
        amounts_fault(items)
    } else if amounts_total(items) > MAX_TOTAL_ESCROW_STROOPS {
        state::refuse(EscrowError::TotalEscrowTooLarge)
    } else {
        None
    }
}

/// The record of a new contract.
pub open spec fn opening_record(
    client: Address,
    freelancer: Address,
    arbiter: Option<Address>,
    milestones: soroban_sdk::Vec<i128>,
    approval_expiry_seconds: Option<u64>,
) -> EscrowContractData {
    EscrowContractData {
        client,
        freelancer,
        arbiter,
        milestones,
        status: ContractStatus::Created,
        total_deposited: 0,
        released_amount: 0,
        refunded_amount: 0,
        release_authorization: ReleaseAuthorization::ClientOnly,
        approval_expiry_seconds,
    }
}

impl EscrowContractData {
    /// The record after a deposit.
    pub open spec fn after_deposit(self, amount: i128) -> EscrowContractData {
        EscrowContractData {
            total_deposited: (self.total_deposited + amount) as i128,
            status: if self.status is Created {
                ContractStatus::Funded
            } else {
                self.status
            },
            ..self
        }
    }

    /// The record after a release of `amount` that leaves the milestones `ms`.
    pub open spec fn after_release(self, amount: i128, ms: Seq<Milestone>) -> EscrowContractData {
        EscrowContractData {
            released_amount: (self.released_amount + amount) as i128,
            status: if accounts::all_settled(ms) {
                ContractStatus::Completed
            } else {
                self.status
            },
            ..self
        }
    }

    /// The record after a cancellation.
    pub open spec fn after_cancel(self) -> EscrowContractData {
        EscrowContractData { status: ContractStatus::Cancelled, ..self }
    }

    /// Why `caller` cannot cancel a contract with milestones `ms`.
    pub open spec fn cancel_refusal(self, ms: Seq<Milestone>, caller: Address) -> Option<Trap> {
        let is_client = caller == self.client;
        let is_freelancer = caller == self.freelancer;
        let is_arbiter = self.arbiter == Some(caller);
        match self.status {
            ContractStatus::Cancelled => state::refuse(EscrowError::AlreadyCancelled),
            ContractStatus::Completed | ContractStatus::Refunded => state::refuse(
                EscrowError::InvalidStatusTransition,
            ),
            ContractStatus::Created => if is_client || is_freelancer {
                None
            } else {
                state::refuse(EscrowError::UnauthorizedRole)
            },
            ContractStatus::Funded => if is_client && accounts::released_total(ms) > 0 {
                state::refuse(EscrowError::MilestonesAlreadyReleased)
            } else if is_client || is_freelancer || is_arbiter {
                None
            } else {
                state::refuse(EscrowError::UnauthorizedRole)
            },
            ContractStatus::Disputed => if is_arbiter {
                None
            } else {
                state::refuse(EscrowError::UnauthorizedRole)
            },
        }
    }
}

/// Why the milestone at an index cannot be released whoever asks.
pub open spec fn milestone_refusal(ms: Seq<Milestone>, milestone_index: u32) -> Option<Trap> {
    if milestone_index >= ms.len() {
        state::refuse(EscrowError::IndexOutOfBounds)
    } else if ms[milestone_index as int].released {
        state::refuse(EscrowError::MilestoneAlreadyReleased)
    } else if ms[milestone_index as int].refunded {
        state::refuse(EscrowError::AlreadyRefunded)
    } else {
        None
    }
}

impl EscrowState {
    /// The state after a contract was opened.
    pub open spec fn after_create(self, data: EscrowContractData) -> EscrowState {
        EscrowState {
            contract_count: (self.contract_count + 1) as u32,
            contracts: self.contracts.insert(self.contract_count, data),
            milestones: self.milestones.insert(
                self.contract_count,
                fresh_milestones(host::amounts_in(data.milestones)),
            ),
            ..self
        }
    }

    /// Why a deposit is refused.
    pub open spec fn deposit_refusal(self, contract_id: u32, amount: i128) -> Option<Trap> {
        if amount <= 0 {
            state::refuse(EscrowError::InvalidDepositAmount)
        } else if !self.contracts.contains_key(contract_id) {
            state::refuse(EscrowError::ContractNotFound)
        } else if self.contracts[contract_id].total_deposited + amount > accounts::total(
            self.milestones[contract_id],
        ) {
            state::refuse(EscrowError::InvalidDepositAmount)
        } else {
            None
        }
    }

    /// The state after a deposit.
    pub open spec fn after_deposit(self, contract_id: u32, amount: i128) -> EscrowState {
        self.with_contract(contract_id, self.contracts[contract_id].after_deposit(amount))
    }

    /// The state after an approval.
    pub open spec fn after_approve(
        self,
        contract_id: u32,
        milestone_index: u32,
        now: u64,
    ) -> EscrowState {
        EscrowState {
            approval_times: self.approval_times.insert((contract_id, milestone_index), now),
            ..self
        }
    }

    /// Whether the approval of a milestone of an existing contract has run out:
    /// the contract limits its approvals, and more time has gone by since the
    /// last one than it allows.
    pub open spec fn approval_expired(
        self,
        contract_id: u32,
        milestone_index: u32,
        now: u64,
    ) -> bool {
        &&& self.approval_times.contains_key((contract_id, milestone_index))
        &&& self.contracts[contract_id].approval_expiry_seconds matches Some(window)
        &&& now > self.approval_times[(contract_id, milestone_index)] + window
    }

    /// Why the release of a milestone is refused.
    pub open spec fn release_refusal(
        self,
        contract_id: u32,
        milestone_index: u32,
        now: u64,
    ) -> Option<Trap> {
        let data = self.contracts[contract_id];
        let ms = self.milestones[contract_id];
        if !self.contracts.contains_key(contract_id) {
            state::refuse(EscrowError::ContractNotFound)
        } else if !(data.status is Funded) {
            state::refuse(EscrowError::InvalidState)
        } else if milestone_refusal(ms, milestone_index) is Some {
            milestone_refusal(ms, milestone_index)
        } else if self.approval_expired(contract_id, milestone_index, now) {
            state::refuse(EscrowError::ApprovalExpired)
        } else if data.available() < ms[milestone_index as int].amount {
            state::refuse(EscrowError::InsufficientFunds)
        } else {
            None
        }
    }

    /// The state after the money of one milestone went to the freelancer.
    pub open spec fn after_release(self, contract_id: u32, milestone_index: u32) -> EscrowState {
        let before = self.milestones[contract_id];
        let milestone = before[milestone_index as int];
        let ms = before.update(milestone_index as int, milestone.after_release());
        self.with_milestones(contract_id, ms).with_contract(
            contract_id,
            self.contracts[contract_id].after_release(milestone.amount, ms),
        )
    }

    /// Why a cancellation is refused.
    pub open spec fn cancel_refusal(
        self,
        call: Invocation,
        contract_id: u32,
        caller: Address,
    ) -> Option<Trap> {
        if !call.covers(caller) {
            Some(Trap::Unauthorized(caller))
        } else if !self.contracts.contains_key(contract_id) {
            state::refuse(EscrowError::ContractNotFound)
        } else {
            self.contracts[contract_id].cancel_refusal(self.milestones[contract_id], caller)
        }
    }

    /// The state after a cancellation.
    pub open spec fn after_cancel(
        self,
        call: Invocation,
        contract_id: u32,
        caller: Address,
    ) -> EscrowState {
        self.with_contract(contract_id, self.contracts[contract_id].after_cancel()).with_event(
            Event::ContractCancelled {
                contract_id,
                caller,
                status: ContractStatus::Cancelled,
                timestamp: call.timestamp,
            },
        )
    }
}

/// A list without fault holds positive amounts only, and becomes milestones of
/// the same total of which none is settled.
pub proof fn lemma_fresh(items: Seq<Option<i128>>)
    requires
        amounts_fault(items) is None,
    ensures
        forall|i: int| 0 <= i < items.len() ==> (#[trigger] items[i]) is Some && items[i]->0 > 0,
        accounts::total(fresh_milestones(items)) == amounts_total(items),
        accounts::released_total(fresh_milestones(items)) == 0,
        accounts::refunded_total(fresh_milestones(items)) == 0,
    decreases items.len(),
{
    if items.len() > 0 {
        lemma_fresh(items.drop_last());
        assert(fresh_milestones(items).drop_last() =~= fresh_milestones(items.drop_last()));
        assert forall|i: int| 0 <= i < items.len() implies (#[trigger] items[i]) is Some
            && items[i]->0 > 0 by {
            if i < items.len() - 1 {
                assert(items.drop_last()[i] == items[i]);
            }
        }
    }
}

/// A fault in the first items of a list is the fault of the list.
proof fn lemma_fault_of_prefix(items: Seq<Option<i128>>, k: int)
    requires
        0 <= k <= items.len(),
        amounts_fault(items.take(k)) is Some,
    ensures
        amounts_fault(items) == amounts_fault(items.take(k)),
    decreases items.len(),
{
    if k < items.len() {
        assert(items.drop_last().take(k) =~= items.take(k));
        lemma_fault_of_prefix(items.drop_last(), k);
    } else {
        assert(items.take(k) =~= items);
    }
}

impl Escrow {
    /// Hands back the symbol that it was given.
    pub fn hello(to: Symbol) -> (r: Symbol)
        ensures
            r == to,
    {
        to
    }

    /// Returns the hard-coded bounds that every contract keeps, for checks on
    /// the side of a client and for dashboards.
    pub fn get_bounds() -> (r: EscrowBounds)
        ensures
            r == (EscrowBounds {
                max_milestones: MAX_MILESTONES,
                max_total_escrow_stroops: MAX_TOTAL_ESCROW_STROOPS,
            }),
    {
        EscrowBounds {
            max_milestones: MAX_MILESTONES,
            max_total_escrow_stroops: MAX_TOTAL_ESCROW_STROOPS,
        }
    }

    /// Turns a list of amounts into the milestones of a new contract.
    fn open_milestones(amounts: &soroban_sdk::Vec<i128>) -> (r: Result<Vec<Milestone>, Trap>)
        ensures
            match r {
                Ok(ms) => {
                    &&& amounts_fault(host::amounts_in(*amounts)) is None
                    &&& amounts_total(host::amounts_in(*amounts)) <= MAX_TOTAL_ESCROW_STROOPS
                    &&& ms@ == fresh_milestones(host::amounts_in(*amounts))
                },
                Err(trap) => Some(trap) == if amounts_fault(host::amounts_in(*amounts)) is Some {
                    amounts_fault(host::amounts_in(*amounts))
                } else {
                    state::refuse(EscrowError::TotalEscrowTooLarge)
                } && (amounts_fault(host::amounts_in(*amounts)) is None ==> amounts_total(
                    host::amounts_in(*amounts),
                ) > MAX_TOTAL_ESCROW_STROOPS),
            },
    {
        let ghost items = host::amounts_in(*amounts);
        let count: u32 = amounts_len(amounts);
        let mut ms: Vec<Milestone> = Vec::new();
        let mut total: i128 = 0;
        let mut over: bool = false;
        let mut i: u32 = 0;
        while i < count
            invariant
                i <= count,
                count == items.len(),
                items == host::amounts_in(*amounts),
                amounts_fault(items.take(i as int)) is None,
                ms@ == fresh_milestones(items.take(i as int)),
                over == (amounts_total(items.take(i as int)) > MAX_TOTAL_ESCROW_STROOPS),
                !over ==> total == amounts_total(items.take(i as int)),
                0 <= total <= MAX_TOTAL_ESCROW_STROOPS,
            decreases count - i,
        {
            assert(items.take(i + 1).drop_last() =~= items.take(i as int));
            assert(items.take(i + 1).last() == items[i as int]);
            let amount: i128 = match amount_at(amounts, i) {
                Some(amount) => amount,
                None => {
                    proof {
                        lemma_fault_of_prefix(items, i + 1);
                    }
                    return Err(Trap::Conversion);
                },
            };
            if amount <= 0 {
                proof {
                    lemma_fault_of_prefix(items, i + 1);
                }
                return Err(Trap::Error(EscrowError::InvalidMilestoneAmount));
            }
            if amount > MAX_TOTAL_ESCROW_STROOPS - total {
                over = true;
            }
            if !over {
                total = total + amount;
            }
            ms.push(Milestone { amount, released: false, refunded: false });
            assert(ms@ =~= fresh_milestones(items.take(i + 1)));
            i = i + 1;
        }
        assert(items.take(i as int) =~= items);
        if over {
            return Err(Trap::Error(EscrowError::TotalEscrowTooLarge));
        }
        Ok(ms)
    }

    /// Checks that a contract can be opened, and returns its milestones.
    fn check_opening(
        call: &Invocation,
        client: &Address,
        freelancer: &Address,
        arbiter: &Option<Address>,
        milestones: &soroban_sdk::Vec<i128>,
    ) -> (r: Result<Vec<Milestone>, Trap>)
        ensures
            ({
                let items = host::amounts_in(*milestones);
                let refusal = opening_refusal(*call, *client, *freelancer, *arbiter, items);
                match r {
                    Ok(ms) => refusal is None && ms@ == fresh_milestones(items),
                    Err(trap) => refusal == Some(trap),
                }
            }),
    {
        match call.require_auth(client) {
            Ok(_) => {},
            Err(trap) => {
                return Err(trap);
            },
        }
        if same_address(client, freelancer) {
            return Err(Trap::Error(EscrowError::InvalidParticipant));
        }
        if let Some(a) = arbiter {
            if same_address(a, client) || same_address(a, freelancer) {
                return Err(Trap::Error(EscrowError::InvalidParticipant));
            }
        }
        let count: u32 = amounts_len(milestones);
        if count == 0 {
            return Err(Trap::Error(EscrowError::EmptyMilestones));
        }
        if count > MAX_MILESTONES {
            return Err(Trap::Error(EscrowError::TooManyMilestones));
        }
        Self::open_milestones(milestones)
    }

    /// Opens a contract and returns its number.  The client signs; nobody takes
    /// two of the three roles; and the milestones keep the bounds that
    /// [`Escrow::get_bounds`] returns.  Releases on behalf of a caller start out
    /// as the client's alone.  Neither the hash of the terms nor the grace period
    /// has a say in any of it, and neither is kept.
    pub fn create_contract(
        &mut self,
        call: &Invocation,
        client: Address,
        freelancer: Address,
        arbiter: Option<Address>,
        milestones: soroban_sdk::Vec<i128>,
        _terms_hash: Option<Bytes>,
        _grace_period_seconds: Option<u64>,
        approval_expiry_seconds: Option<u64>,
    ) -> (r: Result<u32, Trap>)
        requires
            opening_refusal(
                *call,
                client,
                freelancer,
                arbiter,
                host::amounts_in(milestones),
            ) is None ==> old(self)@.contract_count < u32::MAX,
        ensures
            r == state::answer(
                opening_refusal(*call, client, freelancer, arbiter, host::amounts_in(milestones)),
                old(self)@.contract_count,
            ),
            final(self)@ == if r is Ok {
                old(self)@.after_create(
                    opening_record(
                        client,
                        freelancer,
                        arbiter,
                        milestones,
                        approval_expiry_seconds,
                    ),
                )
            } else {
                old(self)@
            },
            old(self)@.wf() ==> final(self)@.wf(),
    {
        let ms: Vec<Milestone> = match Self::check_opening(
            call,
            &client,
            &freelancer,
            &arbiter,
            &milestones,
        ) {
            Ok(ms) => ms,
            Err(trap) => {
                return Err(trap);
            },
        };
        let id: u32 = self.contract_count;
        let data: EscrowContractData = EscrowContractData {
            client,
            freelancer,
            arbiter,
            milestones,
            status: ContractStatus::Created,
            total_deposited: 0,
            released_amount: 0,
            refunded_amount: 0,
            release_authorization: ReleaseAuthorization::ClientOnly,
            approval_expiry_seconds,
        };
        self.contracts.set(id, data);
        self.milestones.set(id, ms);
        self.contract_count = id + 1;
        proof {
            assert(self@ =~= old(self)@.after_create(data));
            if old(self)@.wf() {
                old(self)@.lemma_create_keeps_books(data);
            }
        }
        Ok(id)
    }

    /// [`Escrow::create_contract`] where there is a number left for another
    /// contract; otherwise nothing happens.
    pub fn create_contract_checked(
        &mut self,
        call: &Invocation,
        client: Address,
        freelancer: Address,
        arbiter: Option<Address>,
        milestones: soroban_sdk::Vec<i128>,
        terms_hash: Option<Bytes>,
        grace_period_seconds: Option<u64>,
        approval_expiry_seconds: Option<u64>,
    ) -> (r: Option<Result<u32, Trap>>)
        ensures
            ({
                let items = host::amounts_in(milestones);
                let refusal = opening_refusal(*call, client, freelancer, arbiter, items);
                r == if refusal is None && old(self)@.contract_count == u32::MAX {
                    None
                } else {
                    Some(state::answer(refusal, old(self)@.contract_count))
                }
            }),
            final(self)@ == if r is Some && r->0 is Ok {
                old(self)@.after_create(
                    opening_record(
                        client,
                        freelancer,
                        arbiter,
                        milestones,
                        approval_expiry_seconds,
                    ),
                )
            } else {
                old(self)@
            },
            old(self)@.wf() ==> final(self)@.wf(),
    {
        if self.contract_count == u32::MAX {
            return match Self::check_opening(call, &client, &freelancer, &arbiter, &milestones) {
                Ok(_) => None,
                Err(trap) => Some(Err(trap)),
            };
        }
        Some(
            self.create_contract(
                call,
                client,
                freelancer,
                arbiter,
                milestones,
                terms_hash,
                grace_period_seconds,
                approval_expiry_seconds,
            ),
        )
    }
}

impl EscrowState {
    /// Opening a contract keeps the books.
    pub proof fn lemma_create_keeps_books(self, data: EscrowContractData)
        requires
            self.wf(),
            self.contract_count < u32::MAX,
            1 <= host::amounts_in(data.milestones).len() <= MAX_MILESTONES,
            amounts_fault(host::amounts_in(data.milestones)) is None,
            amounts_total(host::amounts_in(data.milestones)) <= MAX_TOTAL_ESCROW_STROOPS,
            data.status is Created,
            data.total_deposited == 0,
            data.released_amount == 0,
            data.refunded_amount == 0,
        ensures
            self.after_create(data).wf(),
    {
        let items = host::amounts_in(data.milestones);
        let ms = fresh_milestones(items);
        lemma_fresh(items);
        assert forall|i: int| 0 <= i < ms.len() implies (#[trigger] ms[i]).amount > 0 && !(
        ms[i].released && ms[i].refunded) by {
            assert(items[i] is Some);
        }
        assert(items =~= accounts::listed(ms));
        let after = self.after_create(data);
        accounts::lemma_bounded(ms);
        assert(data.balances(ms));
        assert forall|id: u32| #[trigger] after.books_ok(id) by {
            assert(self.books_ok(id));
            if id != self.contract_count && after.contracts.contains_key(id) {
                assert(self.contracts.contains_key(id));
            }
        }
        assert forall|id: u32| #[trigger] after.contracts.contains_key(id) <==> id
            < after.contract_count by {
            assert(self.contracts.contains_key(id) <==> id < self.contract_count);
        }
    }
}

impl EscrowState {
    /// A step that replaces the record and the milestones of one contract by
    /// others that balance keeps the books.
    pub proof fn lemma_update_keeps_books(self, after: EscrowState, contract_id: u32)
        requires
            self.wf(),
            self.contracts.contains_key(contract_id),
            after.contract_count == self.contract_count,
            after.contracts == self.contracts.insert(contract_id, after.contracts[contract_id]),
            forall|id: u32|
                id != contract_id && self.milestones.contains_key(id)
                    ==> #[trigger] after.milestones.contains_key(id) && after.milestones[id]
                    == self.milestones[id],
            after.books_ok(contract_id),
        ensures
            after.wf(),
    {
        assert forall|id: u32| #[trigger] after.books_ok(id) by {
            assert(self.books_ok(id));
            if id != contract_id && after.contracts.contains_key(id) {
                assert(self.contracts.contains_key(id));
                assert(after.milestones.contains_key(id));
            }
        }
        assert forall|id: u32| #[trigger] after.contracts.contains_key(id) <==> id
            < after.contract_count by {
            assert(self.contracts.contains_key(id) <==> id < self.contract_count);
        }
    }

    /// A step that touches neither records nor milestones keeps the books.
    pub proof fn lemma_same_books(self, after: EscrowState)
        requires
            self.wf(),
            after.contract_count == self.contract_count,
            after.contracts == self.contracts,
            after.milestones == self.milestones,
        ensures
            after.wf(),
    {
        assert forall|id: u32| #[trigger] after.books_ok(id) by {
            assert(self.books_ok(id));
        }
        assert forall|id: u32| #[trigger] after.contracts.contains_key(id) <==> id
            < after.contract_count by {
            assert(self.contracts.contains_key(id) <==> id < self.contract_count);
        }
    }

    /// An accepted deposit leaves books that balance.
    pub proof fn lemma_deposit_balances(self, contract_id: u32, amount: i128)
        requires
            self.books_ok(contract_id),
            self.deposit_refusal(contract_id, amount) is None,
        ensures
            self.after_deposit(contract_id, amount).books_ok(contract_id),
            self.wf() ==> self.after_deposit(contract_id, amount).wf(),
    {
        let ms = self.milestones[contract_id];
        accounts::lemma_bounded(ms);
        assert(self.after_deposit(contract_id, amount).contracts[contract_id].balances(ms));
        if self.wf() {
            self.lemma_update_keeps_books(self.after_deposit(contract_id, amount), contract_id);
        }
    }

    /// The release of an open milestone that the money in the contract covers
    /// leaves books that balance.
    pub proof fn lemma_release_balances(self, contract_id: u32, milestone_index: u32)
        requires
            self.contracts.contains_key(contract_id),
            self.books_ok(contract_id),
            milestone_refusal(self.milestones[contract_id], milestone_index) is None,
            self.contracts[contract_id].status is Funded,
            self.milestones[contract_id][milestone_index as int].amount
                <= self.contracts[contract_id].available(),
        ensures
            self.after_release(contract_id, milestone_index).books_ok(contract_id),
            self.wf() ==> self.after_release(contract_id, milestone_index).wf(),
    {
        let ms = self.milestones[contract_id];
        let after = self.after_release(contract_id, milestone_index);
        accounts::lemma_bounded(ms);
        accounts::lemma_release(ms, milestone_index as int);
        accounts::lemma_bounded(after.milestones[contract_id]);
        assert(accounts::listed(after.milestones[contract_id]) =~= accounts::listed(ms));
        assert(after.contracts[contract_id].balances(after.milestones[contract_id]));
        if self.wf() {
            self.lemma_update_keeps_books(after, contract_id);
        }
    }

    /// An accepted cancellation leaves books that balance.
    pub proof fn lemma_cancel_balances(self, call: Invocation, contract_id: u32, caller: Address)
        requires
            self.books_ok(contract_id),
            self.cancel_refusal(call, contract_id, caller) is None,
        ensures
            self.after_cancel(call, contract_id, caller).books_ok(contract_id),
            self.wf() ==> self.after_cancel(call, contract_id, caller).wf(),
    {
        let after = self.after_cancel(call, contract_id, caller);
        assert(after.contracts[contract_id].balances(self.milestones[contract_id]));
        if self.wf() {
            self.lemma_update_keeps_books(after, contract_id);
        }
    }
}

impl Escrow {
    /// Pays `amount` into a contract.  A deposit that would bring the contract
    /// above what its milestones are worth is refused; the first one turns a
    /// created contract into a funded one.
    pub fn deposit_funds(&mut self, contract_id: u32, amount: i128) -> (r: Result<bool, Trap>)
        requires
            old(self)@.books_ok(contract_id),
        ensures
            r == state::answer(old(self)@.deposit_refusal(contract_id, amount), true),
            final(self)@ == if r is Ok {
                old(self)@.after_deposit(contract_id, amount)
            } else {
                old(self)@
            },
            final(self)@.books_ok(contract_id),
            old(self)@.wf() ==> final(self)@.wf(),
    {
        if amount <= 0 {
            return Err(Trap::Error(EscrowError::InvalidDepositAmount));
        }
        let mut data: EscrowContractData = match self.contracts.get(&contract_id) {
            Some(data) => data.clone(),
            None => {
                return Err(Trap::Error(EscrowError::ContractNotFound));
            },
        };
        let ms: &Vec<Milestone> = self.milestones.get(&contract_id).unwrap();
        proof {
            accounts::lemma_bounded(ms@);
        }
        let total: i128 = accounts::total_amount(ms);
        if amount > total - data.total_deposited {
            return Err(Trap::Error(EscrowError::InvalidDepositAmount));
        }
        proof {
            self@.lemma_deposit_balances(contract_id, amount);
        }
        data.total_deposited = data.total_deposited + amount;
        if data.status == ContractStatus::Created {
            data.status = ContractStatus::Funded;
        }
        self.contracts.set(contract_id, data);
        assert(self@ =~= old(self)@.after_deposit(contract_id, amount));
        Ok(true)
    }

    /// Records that a milestone is approved as of now.  A later approval takes
    /// the place of an earlier one.
    pub fn approve_milestone(
        &mut self,
        call: &Invocation,
        contract_id: u32,
        milestone_index: u32,
    ) -> (r: bool)
        ensures
            r,
            final(self)@ == old(self)@.after_approve(
                contract_id,
                milestone_index,
                call.timestamp,
            ),
            old(self)@.wf() ==> final(self)@.wf(),
    {
        self.approval_times.set((contract_id, milestone_index), call.timestamp);
        proof {
            assert(self@ =~= old(self)@.after_approve(
                contract_id,
                milestone_index,
                call.timestamp,
            ));
            if old(self)@.wf() {
                old(self)@.lemma_same_books(self@);
            }
        }
        true
    }

    /// The amount of a milestone that can be released.
    pub(crate) fn open_amount(ms: &Vec<Milestone>, milestone_index: u32) -> (r: Result<i128, Trap>)
        ensures
            r == state::answer(
                milestone_refusal(ms@, milestone_index),
                ms@[milestone_index as int].amount,
            ),
    {
        let i: usize = milestone_index as usize;
        if i >= ms.len() {
            return Err(Trap::Error(EscrowError::IndexOutOfBounds));
        }
        if ms[i].released {
            return Err(Trap::Error(EscrowError::MilestoneAlreadyReleased));
        }
        if ms[i].refunded {
            return Err(Trap::Error(EscrowError::AlreadyRefunded));
        }
        Ok(ms[i].amount)
    }

    /// Tells whether the approval of a milestone has run out.
    pub(crate) fn has_expired(
        &self,
        data: &EscrowContractData,
        contract_id: u32,
        milestone_index: u32,
        now: u64,
    ) -> (r: bool)
        requires
            self@.contracts.contains_key(contract_id),
            *data == self@.contracts[contract_id],
        ensures
            r == self@.approval_expired(contract_id, milestone_index, now),
    {
        match (
            self.approval_times.get(&(contract_id, milestone_index)),
            data.approval_expiry_seconds,
        ) {
            (Some(approved), Some(window)) => now > *approved && now - *approved > window,
            _ => false,
        }
    }

    /// Moves the money of one milestone to the freelancer.
    pub(crate) fn settle(
        &mut self,
        data: EscrowContractData,
        contract_id: u32,
        milestone_index: u32,
    )
        requires
            old(self)@.contracts.contains_key(contract_id),
            data == old(self)@.contracts[contract_id],
            old(self)@.books_ok(contract_id),
            data.status is Funded,
            milestone_refusal(old(self)@.milestones[contract_id], milestone_index) is None,
            old(self)@.milestones[contract_id][milestone_index as int].amount <= data.available(),
        ensures
            final(self)@ == old(self)@.after_release(contract_id, milestone_index),
    {
        proof {
            accounts::lemma_bounded(self@.milestones[contract_id]);
        }
        let mut data = data;
        let mut ms: Vec<Milestone> = self.milestones.remove(&contract_id).unwrap();
        let i: usize = milestone_index as usize;
        let milestone: Milestone = ms[i];
        ms.set(
            i,
            Milestone {
                amount: milestone.amount,
                released: true,
                refunded: milestone.refunded,
            },
        );
        data.released_amount = data.released_amount + milestone.amount;
        if accounts::every_settled(&ms) {
            data.status = ContractStatus::Completed;
        }
        self.milestones.set(contract_id, ms);
        self.contracts.set(contract_id, data);
        assert(self@ =~= old(self)@.after_release(contract_id, milestone_index));
    }

    /// Releases one milestone of a funded contract to the freelancer.  The
    /// milestone is open, its approval has not run out, and the money in the
    /// contract covers it.  The last release completes the contract.
    pub fn release_milestone(
        &mut self,
        call: &Invocation,
        contract_id: u32,
        milestone_index: u32,
    ) -> (r: Result<bool, Trap>)
        requires
            old(self)@.books_ok(contract_id),
        ensures
            r == state::answer(
                old(self)@.release_refusal(contract_id, milestone_index, call.timestamp),
                true,
            ),
            final(self)@ == if r is Ok {
                old(self)@.after_release(contract_id, milestone_index)
            } else {
                old(self)@
            },
            final(self)@.books_ok(contract_id),
            old(self)@.wf() ==> final(self)@.wf(),
    {
        let data: EscrowContractData = match self.contracts.get(&contract_id) {
            Some(data) => data.clone(),
            None => {
                return Err(Trap::Error(EscrowError::ContractNotFound));
            },
        };
        if data.status != ContractStatus::Funded {
            return Err(Trap::Error(EscrowError::InvalidState));
        }
        let ms: &Vec<Milestone> = self.milestones.get(&contract_id).unwrap();
        let amount: i128 = match Self::open_amount(ms, milestone_index) {
            Ok(amount) => amount,
            Err(trap) => {
                return Err(trap);
            },
        };
        if self.has_expired(&data, contract_id, milestone_index, call.timestamp) {
            return Err(Trap::Error(EscrowError::ApprovalExpired));
        }
        proof {
            accounts::lemma_bounded(ms@);
        }
        if data.total_deposited - data.released_amount - data.refunded_amount < amount {
            return Err(Trap::Error(EscrowError::InsufficientFunds));
        }
        proof {
            self@.lemma_release_balances(contract_id, milestone_index);
        }
        self.settle(data, contract_id, milestone_index);
        Ok(true)
    }

    /// Returns the record of a contract.
    pub fn get_contract(&self, contract_id: u32) -> (r: Result<EscrowContractData, Trap>)
        ensures
            r == if self@.contracts.contains_key(contract_id) {
                Ok::<EscrowContractData, Trap>(self@.contracts[contract_id])
            } else {
                Err(Trap::Error(EscrowError::ContractNotFound))
            },
    {
        match self.contracts.get(&contract_id) {
            Some(data) => Ok(data.clone()),
            None => Err(Trap::Error(EscrowError::ContractNotFound)),
        }
    }

    /// Returns the milestone amounts of a contract.
    pub fn get_milestones(&self, contract_id: u32) -> (r: Result<soroban_sdk::Vec<i128>, Trap>)
        ensures
            r == if self@.contracts.contains_key(contract_id) {
                Ok::<soroban_sdk::Vec<i128>, Trap>(self@.contracts[contract_id].milestones)
            } else {
                Err(Trap::Error(EscrowError::ContractNotFound))
            },
    {
        match self.get_contract(contract_id) {
            Ok(data) => Ok(data.milestones),
            Err(trap) => Err(trap),
        }
    }

    /// Adds up what the released milestones of a contract are worth.
    pub fn calculate_released_amount(
        contract: &EscrowContractData,
        ms: &Vec<Milestone>,
    ) -> (r: i128)
        requires
            accounts::bounded(ms@),
            host::amounts_in(contract.milestones) == accounts::listed(ms@),
        ensures
            r == accounts::released_total(ms@),
            contract.balances(ms@) ==> r == contract.released_amount,
    {
        let ghost released_share = |m: Milestone|
            if m.released {
                m.amount as int
            } else {
                0
            };
        let mut released: i128 = 0;
        let count: u32 = amounts_len(&contract.milestones);
        let mut i: u32 = 0;
        proof {
            accounts::lemma_bounded(ms@);
        }
        while i < count
            invariant
                i <= count,
                count == ms@.len(),
                accounts::bounded(ms@),
                host::amounts_in(contract.milestones) == accounts::listed(ms@),
                accounts::released_total(ms@) <= MAX_TOTAL_ESCROW_STROOPS,
                released_share == |m: Milestone|
                    if m.released {
                        m.amount as int
                    } else {
                        0
                    },
                released == accounts::sum_of(ms@.take(i as int), released_share),
                accounts::released_total(ms@) == accounts::sum_of(ms@, released_share),
            decreases count - i,
        {
            proof {
                accounts::lemma_sum_prefix(ms@, i as int, released_share);
                accounts::lemma_sum_prefix(ms@, i + 1, released_share);
                assert(ms@.take(i + 1).drop_last() =~= ms@.take(i as int));
                assert(accounts::listed(ms@)[i as int] == Some(ms@[i as int].amount));
            }
            if ms[i as usize].released {
                let amount: i128 = amount_at(&contract.milestones, i).unwrap();
                released = released + amount;
            }
            i = i + 1;
        }
        assert(ms@.take(i as int) =~= ms@);
        released
    }

    /// Cancels a contract on behalf of `caller`, who signs.  Before it is funded
    /// the client and the freelancer can cancel it; once it is funded the
    /// freelancer and the arbiter, and the client as long as nothing was
    /// released; in a dispute the arbiter alone.
    pub fn cancel_contract(
        &mut self,
        call: &Invocation,
        contract_id: u32,
        caller: Address,
    ) -> (r: Result<bool, Trap>)
        requires
            old(self)@.books_ok(contract_id),
        ensures
            r == state::answer(old(self)@.cancel_refusal(*call, contract_id, caller), true),
            final(self)@ == if r is Ok {
                old(self)@.after_cancel(*call, contract_id, caller)
            } else {
                old(self)@
            },
            final(self)@.books_ok(contract_id),
            old(self)@.wf() ==> final(self)@.wf(),
    {
        match call.require_auth(&caller) {
            Ok(_) => {},
            Err(trap) => {
                return Err(trap);
            },
        }
        let mut data: EscrowContractData = match self.contracts.get(&contract_id) {
            Some(data) => data.clone(),
            None => {
                return Err(Trap::Error(EscrowError::ContractNotFound));
            },
        };
        if data.status == ContractStatus::Cancelled {
            return Err(Trap::Error(EscrowError::AlreadyCancelled));
        }
        if data.status == ContractStatus::Completed {
            return Err(Trap::Error(EscrowError::InvalidStatusTransition));
        }
        let is_client: bool = same_address(&caller, &data.client);
        let is_freelancer: bool = same_address(&caller, &data.freelancer);
        let is_arbiter: bool = match &data.arbiter {
            Some(a) => same_address(a, &caller),
            None => false,
        };
        match data.status {
            ContractStatus::Created => {
                if !is_client && !is_freelancer {
                    return Err(Trap::Error(EscrowError::UnauthorizedRole));
                }
            },
            ContractStatus::Funded => {
                let ms: &Vec<Milestone> = self.milestones.get(&contract_id).unwrap();
                let released: i128 = Self::calculate_released_amount(&data, ms);
                if is_client {
                    if released > 0 {
                        return Err(Trap::Error(EscrowError::MilestonesAlreadyReleased));
                    }
                } else if !is_freelancer && !is_arbiter {
                    return Err(Trap::Error(EscrowError::UnauthorizedRole));
                }
            },
            ContractStatus::Disputed => {
                if !is_arbiter {
                    return Err(Trap::Error(EscrowError::UnauthorizedRole));
                }
            },
            _ => {
                return Err(Trap::Error(EscrowError::InvalidStatusTransition));
            },
        }
        proof {
            self@.lemma_cancel_balances(*call, contract_id, caller);
        }
        data.status = ContractStatus::Cancelled;
        self.contracts.set(contract_id, data);
        self.events.push(
            Event::ContractCancelled {
                contract_id,
                caller,
                status: ContractStatus::Cancelled,
                timestamp: call.timestamp,
            },
        );
        assert(self@ =~= old(self)@.after_cancel(*call, contract_id, caller));
        Ok(true)
    }

    /// Tells whether the books of a contract balance; those of a contract that
    /// does not exist do.
    pub fn check_accounting_invariant(&self, contract_id: u32) -> (r: bool)
        ensures
            r == self@.books_ok(contract_id),
    {
        match (self.contracts.get(&contract_id), self.milestones.get(&contract_id)) {
            (None, _) => true,
            (Some(_), None) => false,
            (Some(data), Some(ms)) => accounts::check_balances(data, ms),
        }
    }
}

} // verus!
