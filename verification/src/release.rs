//! Releases on behalf of a caller: one milestone, or several at once.
//!
//! The caller signs and has a role that the contract lets release.  Each
//! milestone needs an approval that has not run out; a release uses it up.

use soroban_sdk::Address;
use vstd::prelude::*;

use crate::accounts;
use crate::host;
use crate::host::{index_at, indices_len, same_address};
use crate::lifecycle;
use crate::state;
use crate::state::{Escrow, EscrowState};
use crate::types::{
    ContractStatus, EscrowContractData, EscrowError, Event, Invocation, Milestone,
    ReleaseAuthorization, Trap,
};

verus! {

impl EscrowContractData {
    /// Whether the role of `caller` lets them release milestones.
    pub open spec fn may_release(self, caller: Address) -> bool {
        let is_client = caller == self.client;
        let is_freelancer = caller == self.freelancer;
        let is_arbiter = self.arbiter == Some(caller);
        match self.release_authorization {
            ReleaseAuthorization::ClientOnly => is_client,
            ReleaseAuthorization::ArbiterOnly => is_arbiter,
            ReleaseAuthorization::ClientAndArbiter => is_client || is_arbiter,
            ReleaseAuthorization::MultiSig => is_client || is_freelancer,
        }
    }

    /// Tells whether the role of `caller` lets them release milestones.
    fn has_release_role(&self, caller: &Address) -> (r: bool)
        ensures
            r == self.may_release(*caller),
    {
        let is_client: bool = same_address(caller, &self.client);
        let is_freelancer: bool = same_address(caller, &self.freelancer);
        let is_arbiter: bool = match &self.arbiter {
            Some(a) => same_address(a, caller),
            None => false,
        };
        match self.release_authorization {
            ReleaseAuthorization::ClientOnly => is_client,
            ReleaseAuthorization::ArbiterOnly => is_arbiter,
            ReleaseAuthorization::ClientAndArbiter => is_client || is_arbiter,
            ReleaseAuthorization::MultiSig => is_client || is_freelancer,
        }
    }
}

impl EscrowState {
    /// Whether a contract takes no more releases.
    pub open spec fn is_finalized(self, contract_id: u32) -> bool {
        self.finalized.contains_key(contract_id) && self.finalized[contract_id]
    }

    /// Why the approval of a milestone of an existing contract does not carry a
    /// release: there is none, or it has run out.
    pub open spec fn approval_refusal(
        self,
        contract_id: u32,
        milestone_index: u32,
        now: u64,
    ) -> Option<Trap> {
        if !self.approval_times.contains_key((contract_id, milestone_index)) {
            state::refuse(EscrowError::InsufficientApprovals)
        } else if self.approval_expired(contract_id, milestone_index, now) {
            state::refuse(EscrowError::ApprovalExpired)
        } else {
            None
        }
    }

    /// How often a freelancer has completed a contract without being rated yet.
    pub open spec fn credits(self, freelancer: Address) -> int {
        if self.reputation_credits.contains_key(freelancer) {
            self.reputation_credits[freelancer] as int
        } else {
            0
        }
    }

    /// Why `caller` cannot release one milestone.
    pub open spec fn release_by_refusal(
        self,
        call: Invocation,
        contract_id: u32,
        caller: Address,
        milestone_index: u32,
    ) -> Option<Trap> {
        let data = self.contracts[contract_id];
        let ms = self.milestones[contract_id];
        if self.paused {
            state::refuse(EscrowError::ContractPaused)
        } else if !call.covers(caller) {
            Some(Trap::Unauthorized(caller))
        } else if self.is_finalized(contract_id) {
            state::refuse(EscrowError::ContractFinalized)
        } else if !self.contracts.contains_key(contract_id) {
            state::refuse(EscrowError::ContractNotFound)
        } else if !(data.status is Funded) {
            state::refuse(EscrowError::InvalidState)
        } else if !data.may_release(caller) {
            state::refuse(EscrowError::UnauthorizedRole)
        } else if lifecycle::milestone_refusal(ms, milestone_index) is Some {
            lifecycle::milestone_refusal(ms, milestone_index)
        } else if self.approval_refusal(contract_id, milestone_index, call.timestamp) is Some {
            self.approval_refusal(contract_id, milestone_index, call.timestamp)
        } else if data.available() < ms[milestone_index as int].amount {
            state::refuse(EscrowError::InsufficientFunds)
        } else {
            None
        }
    }

    /// The protocol fee on the release of one milestone; there is none before
    /// the protocol is initialized.
    pub open spec fn release_fee(self, contract_id: u32, milestone_index: u32) -> int {
        if self.initialized {
            accounts::protocol_fee(
                self.milestones[contract_id][milestone_index as int].amount as int,
                self.fee_bps() as int,
            )
        } else {
            0
        }
    }

    /// Whether the sum of the fees has room for the fee on the release of one
    /// milestone, and, where that release completes the contract, the ratings of
    /// the freelancer for one more.
    pub open spec fn fits_release(self, contract_id: u32, milestone_index: u32) -> bool {
        let released = self.after_release(contract_id, milestone_index);
        &&& self.accumulated_protocol_fees + self.release_fee(contract_id, milestone_index)
            <= i128::MAX
        &&& released.contracts[contract_id].status is Completed ==> self.credits(
            self.contracts[contract_id].freelancer,
        ) < i128::MAX
    }

    /// The state after `caller` released one milestone.
    pub open spec fn after_release_by(
        self,
        call: Invocation,
        contract_id: u32,
        caller: Address,
        milestone_index: u32,
    ) -> EscrowState {
        let released = self.after_release(contract_id, milestone_index);
        let freelancer = self.contracts[contract_id].freelancer;
        EscrowState {
            approval_times: self.approval_times.remove((contract_id, milestone_index)),
            accumulated_protocol_fees: (self.accumulated_protocol_fees + self.release_fee(
                contract_id,
                milestone_index,
            )) as i128,
            reputation_credits: if released.contracts[contract_id].status is Completed {
                self.reputation_credits.insert(freelancer, (self.credits(freelancer) + 1) as i128)
            } else {
                self.reputation_credits
            },
            ..released
        }.with_event(
            Event::MilestoneReleased {
                contract_id,
                milestone_index,
                caller,
                amount: self.milestones[contract_id][milestone_index as int].amount,
                released_amount: released.contracts[contract_id].released_amount,
                timestamp: call.timestamp,
            },
        )
    }

    /// The release of one milestone on behalf of a caller keeps the books.
    pub proof fn lemma_release_by_balances(
        self,
        call: Invocation,
        contract_id: u32,
        caller: Address,
        milestone_index: u32,
    )
        requires
            self.books_ok(contract_id),
            self.release_by_refusal(call, contract_id, caller, milestone_index) is None,
        ensures
            self.after_release_by(call, contract_id, caller, milestone_index).books_ok(
                contract_id,
            ),
            self.wf() ==> self.after_release_by(call, contract_id, caller, milestone_index).wf(),
    {
        self.lemma_release_balances(contract_id, milestone_index);
        if self.wf() {
            self.after_release(contract_id, milestone_index).lemma_same_books(
                self.after_release_by(call, contract_id, caller, milestone_index),
            );
        }
    }
}

/// The items of a list of indices, once each is known to be one.
pub open spec fn wanted(items: Seq<Option<u32>>) -> Seq<u32> {
    items.map_values(|item: Option<u32>| item->0)
}

/// What is wrong with two items of a list: one of them is no index, or both are
/// the same one.
pub open spec fn pair_refusal(a: Option<u32>, b: Option<u32>) -> Option<Trap> {
    if a is None || b is None {
        Some(Trap::Conversion)
    } else if a == b {
        state::refuse(EscrowError::DuplicateMilestoneInRefund)
    } else {
        None
    }
}

/// What is wrong with the item `i` of a list and the items from `j` on: the first
/// of these pairs that has a fault decides.
pub open spec fn row_refusal(items: Seq<Option<u32>>, i: int, j: int) -> Option<Trap>
    decreases items.len() - j,
{
    if j >= items.len() {
        None
    } else if pair_refusal(items[i], items[j]) is Some {
        pair_refusal(items[i], items[j])
    } else {
        row_refusal(items, i, j + 1)
    }
}

/// What is wrong with the items of a list from `i` on, each with those behind it:
/// the first of these pairs that has a fault decides.
pub open spec fn pairs_refusal(items: Seq<Option<u32>>, i: int) -> Option<Trap>
    decreases items.len() - i,
{
    if i >= items.len() {
        None
    } else if row_refusal(items, i, i + 1) is Some {
        row_refusal(items, i, i + 1)
    } else {
        pairs_refusal(items, i + 1)
    }
}

/// Why some milestone of a list cannot be released: the first one decides.
pub open spec fn milestones_refusal(ms: Seq<Milestone>, indices: Seq<u32>) -> Option<Trap>
    decreases indices.len(),
{
    if indices.len() == 0 {
        None
    } else if milestones_refusal(ms, indices.drop_last()) is Some {
        milestones_refusal(ms, indices.drop_last())
    } else {
        lifecycle::milestone_refusal(ms, indices.last())
    }
}

/// What the milestones of a list are worth.
pub open spec fn amount_of(ms: Seq<Milestone>, indices: Seq<u32>) -> int
    decreases indices.len(),
{
    if indices.len() == 0 {
        0
    } else {
        amount_of(ms, indices.drop_last()) + ms[indices.last() as int].amount
    }
}

/// The protocol fees on the milestones of a list, each rounded down.
pub open spec fn fees_of(ms: Seq<Milestone>, indices: Seq<u32>, bps: u32) -> int
    decreases indices.len(),
{
    if indices.len() == 0 {
        0
    } else {
        fees_of(ms, indices.drop_last(), bps) + accounts::protocol_fee(
            ms[indices.last() as int].amount as int,
            bps as int,
        )
    }
}

/// The keys under which the approvals of the milestones of a list are kept.
pub open spec fn approval_keys(contract_id: u32, indices: Seq<u32>) -> Set<(u32, u32)> {
    Set::new(|key: (u32, u32)| key.0 == contract_id && indices.contains(key.1))
}

/// The milestones once all those of a list are released.
pub open spec fn released_at(ms: Seq<Milestone>, indices: Seq<u32>) -> Seq<Milestone> {
    Seq::new(
        ms.len(),
        |i: int|
            if indices.contains(i as u32) {
                ms[i].after_release()
            } else {
                ms[i]
            },
    )
}

impl EscrowState {
    /// Why the approval of some milestone of a list does not carry a release:
    /// the first one decides.
    pub open spec fn approvals_refusal(
        self,
        contract_id: u32,
        indices: Seq<u32>,
        now: u64,
    ) -> Option<Trap>
        decreases indices.len(),
    {
        if indices.len() == 0 {
            None
        } else if self.approvals_refusal(contract_id, indices.drop_last(), now) is Some {
            self.approvals_refusal(contract_id, indices.drop_last(), now)
        } else {
            self.approval_refusal(contract_id, indices.last(), now)
        }
    }

    /// Why `caller` cannot release the milestones of a list.  The items of the
    /// list are read in pairs first; an item that stands alone is read with the
    /// milestones.
    pub open spec fn release_all_refusal(
        self,
        call: Invocation,
        contract_id: u32,
        caller: Address,
        items: Seq<Option<u32>>,
    ) -> Option<Trap> {
        let data = self.contracts[contract_id];
        let ms = self.milestones[contract_id];
        let indices = wanted(items);
        if items.len() == 0 {
            state::refuse(EscrowError::EmptyRefundRequest)
        } else if pairs_refusal(items, 0) is Some {
            pairs_refusal(items, 0)
        } else if !call.covers(caller) {
            Some(Trap::Unauthorized(caller))
        } else if !self.contracts.contains_key(contract_id) {
            state::refuse(EscrowError::ContractNotFound)
        } else if self.is_finalized(contract_id) {
            state::refuse(EscrowError::ContractFinalized)
        } else if items.contains(None) {
            Some(Trap::Conversion)
        } else if milestones_refusal(ms, indices) is Some {
            milestones_refusal(ms, indices)
        } else if !(data.status is Funded) {
            state::refuse(EscrowError::InvalidState)
        } else if !data.may_release(caller) {
            state::refuse(EscrowError::UnauthorizedRole)
        } else if self.approvals_refusal(contract_id, indices, call.timestamp) is Some {
            self.approvals_refusal(contract_id, indices, call.timestamp)
        } else if data.available() < amount_of(ms, indices) {
            state::refuse(EscrowError::InsufficientFunds)
        } else {
            None
        }
    }

    /// The record of a contract once the milestones of a list are released.
    pub open spec fn record_after_release_all(
        self,
        contract_id: u32,
        indices: Seq<u32>,
    ) -> EscrowContractData {
        let ms = self.milestones[contract_id];
        self.contracts[contract_id].after_release(
            amount_of(ms, indices) as i128,
            released_at(ms, indices),
        )
    }

    /// The state after the milestones of a list were released.
    pub open spec fn after_release_all(self, contract_id: u32, indices: Seq<u32>) -> EscrowState {
        let ms = self.milestones[contract_id];
        EscrowState {
            contracts: self.contracts.insert(
                contract_id,
                self.record_after_release_all(contract_id, indices),
            ),
            milestones: self.milestones.insert(contract_id, released_at(ms, indices)),
            approval_times: self.approval_times.remove_keys(approval_keys(contract_id, indices)),
            accumulated_protocol_fees: (self.accumulated_protocol_fees + fees_of(
                ms,
                indices,
                self.fee_bps(),
            )) as i128,
            ..self
        }
    }
}

/// Without a faulty pair from the item `i` on, none of these pairs has a fault.
proof fn lemma_pairs(items: Seq<Option<u32>>, i: int)
    requires
        0 <= i,
        pairs_refusal(items, i) is None,
    ensures
        forall|a: int, b: int|
            i <= a < b < items.len() ==> pair_refusal(#[trigger] items[a], #[trigger] items[b])
                is None,
    decreases items.len() - i,
{
    if i < items.len() {
        lemma_row(items, i, i + 1);
        lemma_pairs(items, i + 1);
    }
}

proof fn lemma_row(items: Seq<Option<u32>>, i: int, j: int)
    requires
        row_refusal(items, i, j) is None,
    ensures
        forall|b: int| j <= b < items.len() ==> pair_refusal(items[i], #[trigger] items[b]) is None,
    decreases items.len() - j,
{
    if j < items.len() {
        lemma_row(items, i, j + 1);
    }
}

/// A list of indices without a faulty pair names no milestone twice.
pub proof fn lemma_distinct(items: Seq<Option<u32>>)
    requires
        pairs_refusal(items, 0) is None,
        !items.contains(None),
    ensures
        wanted(items).no_duplicates(),
{
    lemma_pairs(items, 0);
    let indices = wanted(items);
    assert forall|a: int, b: int|
        0 <= a < b < indices.len() implies #[trigger] indices[a] != #[trigger] indices[b] by {
        assert(items[a] is Some && items[b] is Some);
        assert(pair_refusal(items[a], items[b]) is None);
    }
}

/// What a list holds beyond all but its last item.
proof fn lemma_contains_step(indices: Seq<u32>)
    requires
        indices.len() > 0,
    ensures
        forall|x: u32| #[trigger]
            indices.contains(x) == (indices.drop_last().contains(x) || x == indices.last()),
{
    let rest = indices.drop_last();
    assert forall|x: u32| #[trigger]
        indices.contains(x) == (rest.contains(x) || x == indices.last()) by {
        if indices.contains(x) {
            let j = choose|j: int| 0 <= j < indices.len() && indices[j] == x;
            if j < rest.len() {
                assert(rest[j] == x);
            }
        }
        if rest.contains(x) {
            let j = choose|j: int| 0 <= j < rest.len() && rest[j] == x;
            assert(indices[j] == x);
        }
        assert(indices[indices.len() - 1] == indices.last());
    }
}

/// Releasing one more milestone of a list.
pub proof fn lemma_released_step(ms: Seq<Milestone>, indices: Seq<u32>)
    requires
        indices.len() > 0,
        indices.no_duplicates(),
        indices.last() < ms.len() <= u32::MAX,
    ensures
        released_at(ms, indices.drop_last())[indices.last() as int] == ms[indices.last() as int],
        released_at(ms, indices) == released_at(ms, indices.drop_last()).update(
            indices.last() as int,
            ms[indices.last() as int].after_release(),
        ),
{
    let rest = indices.drop_last();
    let last = indices.last();
    assert(!rest.contains(last)) by {
        if rest.contains(last) {
            let j = choose|j: int| 0 <= j < rest.len() && rest[j] == last;
            assert(indices[j] == indices[indices.len() - 1]);
        }
    }
    lemma_contains_step(indices);
    assert(released_at(ms, indices) =~= released_at(ms, rest).update(
        last as int,
        ms[last as int].after_release(),
    ));
}

/// Releasing distinct open milestones moves their amounts, and nothing else, to
/// the freelancer.
pub proof fn lemma_released_at(ms: Seq<Milestone>, indices: Seq<u32>)
    requires
        accounts::bounded(ms),
        indices.no_duplicates(),
        milestones_refusal(ms, indices) is None,
    ensures
        accounts::bounded(released_at(ms, indices)),
        accounts::listed(released_at(ms, indices)) == accounts::listed(ms),
        accounts::total(released_at(ms, indices)) == accounts::total(ms),
        accounts::released_total(released_at(ms, indices)) == accounts::released_total(ms)
            + amount_of(ms, indices),
        accounts::refunded_total(released_at(ms, indices)) == accounts::refunded_total(ms),
        0 <= amount_of(ms, indices) <= accounts::total(ms),
    decreases indices.len(),
{
    assert(accounts::listed(released_at(ms, indices)) =~= accounts::listed(ms));
    accounts::lemma_bounded(ms);
    if indices.len() == 0 {
        assert(released_at(ms, indices) =~= ms);
    } else {
        let rest = indices.drop_last();
        let last = indices.last();
        assert(rest.no_duplicates());
        lemma_released_at(ms, rest);
        lemma_released_step(ms, indices);
        accounts::lemma_release(released_at(ms, rest), last as int);
        accounts::lemma_bounded(released_at(ms, indices));
    }
}

/// The amounts of the first milestones of a list are part of its amount, and so
/// are the fees.
proof fn lemma_list_prefix(ms: Seq<Milestone>, indices: Seq<u32>, bps: u32, k: int)
    requires
        accounts::bounded(ms),
        milestones_refusal(ms, indices) is None,
        0 <= k <= indices.len(),
    ensures
        milestones_refusal(ms, indices.take(k)) is None,
        0 <= amount_of(ms, indices.take(k)) <= amount_of(ms, indices),
        0 <= fees_of(ms, indices.take(k), bps) <= fees_of(ms, indices, bps),
    decreases indices.len(),
{
    if k < indices.len() {
        let rest = indices.drop_last();
        lemma_list_prefix(ms, rest, bps, k);
        assert(rest.take(k) =~= indices.take(k));
        lemma_fee_not_negative(ms[indices.last() as int].amount as int, bps as int);
    } else {
        assert(indices.take(k) =~= indices);
        if indices.len() > 0 {
            lemma_list_prefix(ms, indices.drop_last(), bps, k - 1);
            assert(indices.drop_last().take(k - 1) =~= indices.drop_last());
            lemma_fee_not_negative(ms[indices.last() as int].amount as int, bps as int);
        }
    }
}

proof fn lemma_fee_not_negative(amount: int, bps: int)
    requires
        0 <= amount,
        0 <= bps,
    ensures
        0 <= accounts::protocol_fee(amount, bps),
{
    assert(0 <= amount * bps) by (nonlinear_arith)
        requires
            0 <= amount,
            0 <= bps,
    ;
}

/// A refusal for the first milestones of a list is the refusal for the list.
proof fn lemma_refusal_of_prefix(ms: Seq<Milestone>, indices: Seq<u32>, k: int)
    requires
        0 <= k <= indices.len(),
        milestones_refusal(ms, indices.take(k)) is Some,
    ensures
        milestones_refusal(ms, indices) == milestones_refusal(ms, indices.take(k)),
    decreases indices.len(),
{
    if k < indices.len() {
        assert(indices.drop_last().take(k) =~= indices.take(k));
        lemma_refusal_of_prefix(ms, indices.drop_last(), k);
    } else {
        assert(indices.take(k) =~= indices);
    }
}

impl EscrowState {
    /// The same for approvals.
    proof fn lemma_approvals_of_prefix(
        self,
        contract_id: u32,
        indices: Seq<u32>,
        now: u64,
        k: int,
    )
        requires
            0 <= k <= indices.len(),
            self.approvals_refusal(contract_id, indices.take(k), now) is Some,
        ensures
            self.approvals_refusal(contract_id, indices, now) == self.approvals_refusal(
                contract_id,
                indices.take(k),
                now,
            ),
        decreases indices.len(),
    {
        if k < indices.len() {
            assert(indices.drop_last().take(k) =~= indices.take(k));
            self.lemma_approvals_of_prefix(contract_id, indices.drop_last(), now, k);
        } else {
            assert(indices.take(k) =~= indices);
        }
    }

    /// The release of several milestones keeps the books.
    pub proof fn lemma_release_all_balances(
        self,
        call: Invocation,
        contract_id: u32,
        caller: Address,
        items: Seq<Option<u32>>,
    )
        requires
            self.books_ok(contract_id),
            self.release_all_refusal(call, contract_id, caller, items) is None,
        ensures
            self.after_release_all(contract_id, wanted(items)).books_ok(contract_id),
            self.wf() ==> self.after_release_all(contract_id, wanted(items)).wf(),
    {
        let indices = wanted(items);
        let ms = self.milestones[contract_id];
        let after = self.after_release_all(contract_id, indices);
        lemma_distinct(items);
        lemma_released_at(ms, indices);
        accounts::lemma_bounded(ms);
        accounts::lemma_bounded(released_at(ms, indices));
        assert(after.contracts[contract_id].balances(after.milestones[contract_id]));
        if self.wf() {
            self.lemma_update_keeps_books(after, contract_id);
        }
    }
}

impl Escrow {
    /// Checks that the approval of a milestone carries a release.
    fn check_approvals(
        &self,
        data: &EscrowContractData,
        contract_id: u32,
        milestone_index: u32,
        now: u64,
    ) -> (r: Result<(), Trap>)
        requires
            self@.contracts.contains_key(contract_id),
            *data == self@.contracts[contract_id],
        ensures
            r == state::answer(self@.approval_refusal(contract_id, milestone_index, now), ()),
    {
        if !self.approval_times.has(&(contract_id, milestone_index)) {
            return Err(Trap::Error(EscrowError::InsufficientApprovals));
        }
        if self.has_expired(data, contract_id, milestone_index, now) {
            return Err(Trap::Error(EscrowError::ApprovalExpired));
        }
        Ok(())
    }

    /// Tells whether a contract takes no more releases.
    fn finalized_already(&self, contract_id: u32) -> (r: bool)
        ensures
            r == self@.is_finalized(contract_id),
    {
        match self.finalized.get(&contract_id) {
            Some(finalized) => *finalized,
            None => false,
        }
    }

    /// Checks that `caller` can release a milestone, and returns what it is worth.
    fn check_release_by(
        &self,
        call: &Invocation,
        contract_id: u32,
        caller: &Address,
        milestone_index: u32,
    ) -> (r: Result<i128, Trap>)
        requires
            self@.books_ok(contract_id),
        ensures
            r == state::answer(
                self@.release_by_refusal(*call, contract_id, *caller, milestone_index),
                self@.milestones[contract_id][milestone_index as int].amount,
            ),
    {
        if self.paused {
            return Err(Trap::Error(EscrowError::ContractPaused));
        }
        match call.require_auth(caller) {
            Ok(_) => {},
            Err(trap) => {
                return Err(trap);
            },
        }
        if self.finalized_already(contract_id) {
            return Err(Trap::Error(EscrowError::ContractFinalized));
        }
        let data: &EscrowContractData = match self.contracts.get(&contract_id) {
            Some(data) => data,
            None => {
                return Err(Trap::Error(EscrowError::ContractNotFound));
            },
        };
        if data.status != ContractStatus::Funded {
            return Err(Trap::Error(EscrowError::InvalidState));
        }
        if !data.has_release_role(caller) {
            return Err(Trap::Error(EscrowError::UnauthorizedRole));
        }
        let ms: &Vec<Milestone> = self.milestones.get(&contract_id).unwrap();
        let amount: i128 = match Self::open_amount(ms, milestone_index) {
            Ok(amount) => amount,
            Err(trap) => {
                return Err(trap);
            },
        };
        match self.check_approvals(data, contract_id, milestone_index, call.timestamp) {
            Ok(_) => {},
            Err(trap) => {
                return Err(trap);
            },
        }
        proof {
            accounts::lemma_bounded(ms@);
        }
        if data.total_deposited - data.released_amount - data.refunded_amount < amount {
            return Err(Trap::Error(EscrowError::InsufficientFunds));
        }
        Ok(amount)
    }

    /// Releases one milestone of a funded contract to the freelancer on behalf
    /// of `caller`.  The protocol takes note of its fee, the approval is used
    /// up, and the last release completes the contract and earns the freelancer
    /// a rating.
    pub fn release_milestone_impl(
        &mut self,
        call: &Invocation,
        contract_id: u32,
        caller: Address,
        milestone_index: u32,
    ) -> (r: Result<bool, Trap>)
        requires
            old(self)@.books_ok(contract_id),
            old(self)@.release_by_refusal(*call, contract_id, caller, milestone_index) is None
                ==> old(self)@.fits_release(contract_id, milestone_index),
        ensures
            r == state::answer(
                old(self)@.release_by_refusal(*call, contract_id, caller, milestone_index),
                true,
            ),
            final(self)@ == if r is Ok {
                old(self)@.after_release_by(*call, contract_id, caller, milestone_index)
            } else {
                old(self)@
            },
            final(self)@.books_ok(contract_id),
            old(self)@.wf() ==> final(self)@.wf(),
    {
        let amount: i128 = match self.check_release_by(
            call,
            contract_id,
            &caller,
            milestone_index,
        ) {
            Ok(amount) => amount,
            Err(trap) => {
                return Err(trap);
            },
        };
        let data: EscrowContractData = self.contracts.get(&contract_id).unwrap().clone();
        proof {
            accounts::lemma_bounded(self@.milestones[contract_id]);
            self@.lemma_release_by_balances(*call, contract_id, caller, milestone_index);
        }
        let freelancer: Address = data.freelancer.clone();
        let released_amount: i128 = data.released_amount + amount;
        self.settle(data, contract_id, milestone_index);
        if self.initialized {
            let fee_bps: u32 = self.protocol_fee_bps.unwrap_or(0);
            let fee: i128 = accounts::calculate_protocol_fee(amount, fee_bps);
            self.accumulated_protocol_fees = self.accumulated_protocol_fees + fee;
        }
        let _ = self.approval_times.remove(&(contract_id, milestone_index));
        let completed: bool = match self.contracts.get(&contract_id) {
            Some(data) => data.status == ContractStatus::Completed,
            None => false,
        };
        if completed {
            let credits: i128 = match self.reputation_credits.get(&freelancer) {
                Some(credits) => *credits,
                None => 0,
            };
            self.reputation_credits.set(freelancer, credits + 1);
        }
        self.events.push(
            Event::MilestoneReleased {
                contract_id,
                milestone_index,
                caller,
                amount,
                released_amount,
                timestamp: call.timestamp,
            },
        );
        assert(self@ =~= old(self)@.after_release_by(*call, contract_id, caller, milestone_index));
        Ok(true)
    }

    /// Tells whether the sum of the fees and the ratings of the freelancer have
    /// room for the release of an open milestone.
    fn has_room_for_release(&self, contract_id: u32, milestone_index: u32) -> (r: bool)
        requires
            self@.contracts.contains_key(contract_id),
            self@.books_ok(contract_id),
            lifecycle::milestone_refusal(self@.milestones[contract_id], milestone_index) is None,
            self@.contracts[contract_id].status is Funded,
        ensures
            r == self@.fits_release(contract_id, milestone_index),
    {
        let data: &EscrowContractData = self.contracts.get(&contract_id).unwrap();
        let ms: &Vec<Milestone> = self.milestones.get(&contract_id).unwrap();
        proof {
            accounts::lemma_bounded(ms@);
        }
        if self.initialized {
            let fee_bps: u32 = self.protocol_fee_bps.unwrap_or(0);
            let fee: i128 = accounts::calculate_protocol_fee(
                ms[milestone_index as usize].amount,
                fee_bps,
            );
            if self.accumulated_protocol_fees.checked_add(fee).is_none() {
                return false;
            }
        }
        let credits: i128 = match self.reputation_credits.get(&data.freelancer) {
            Some(credits) => *credits,
            None => 0,
        };
        let ghost after = ms@.update(
            milestone_index as int,
            ms@[milestone_index as int].after_release(),
        );
        let mut i: usize = 0;
        while i < ms.len()
            invariant
                i <= ms@.len(),
                milestone_index < ms@.len(),
                after == ms@.update(
                    milestone_index as int,
                    ms@[milestone_index as int].after_release(),
                ),
                forall|j: int| 0 <= j < i ==> (#[trigger] after[j]).settled(),
                self@.contracts.contains_key(contract_id),
                self@.contracts[contract_id].status is Funded,
                ms@ == self@.milestones[contract_id],
                self@.accumulated_protocol_fees + self@.release_fee(contract_id, milestone_index)
                    <= i128::MAX,
            decreases ms@.len() - i,
        {
            if i != milestone_index as usize && !ms[i].released && !ms[i].refunded {
                assert(!after[i as int].settled());
                return true;
            }
            i = i + 1;
        }
        assert(accounts::all_settled(after));
        credits < i128::MAX
    }

    /// [`Escrow::release_milestone_impl`] where the sum of the fees and the
    /// ratings of the freelancer have room for this release; otherwise nothing
    /// happens.
    pub fn release_milestone_impl_checked(
        &mut self,
        call: &Invocation,
        contract_id: u32,
        caller: Address,
        milestone_index: u32,
    ) -> (r: Option<Result<bool, Trap>>)
        requires
            old(self)@.books_ok(contract_id),
        ensures
            ({
                let refusal = old(self)@.release_by_refusal(
                    *call,
                    contract_id,
                    caller,
                    milestone_index,
                );
                &&& r == if refusal is None && !old(self)@.fits_release(
                    contract_id,
                    milestone_index,
                ) {
                    None
                } else {
                    Some(state::answer(refusal, true))
                }
                &&& final(self)@ == if r is Some && r->0 is Ok {
                    old(self)@.after_release_by(*call, contract_id, caller, milestone_index)
                } else {
                    old(self)@
                }
            }),
            final(self)@.books_ok(contract_id),
            old(self)@.wf() ==> final(self)@.wf(),
    {
        match self.check_release_by(call, contract_id, &caller, milestone_index) {
            Ok(_) => {},
            Err(trap) => {
                return Some(Err(trap));
            },
        }
        if !self.has_room_for_release(contract_id, milestone_index) {
            return None;
        }
        Some(self.release_milestone_impl(call, contract_id, caller, milestone_index))
    }

    /// Reads a list of indices out of a host vector.
    fn read_indices(v: &soroban_sdk::Vec<u32>) -> (r: Result<Vec<u32>, Trap>)
        ensures
            match r {
                Ok(indices) => {
                    &&& !host::indices_in(*v).contains(None)
                    &&& indices@ == wanted(host::indices_in(*v))
                },
                Err(trap) => trap == Trap::Conversion && host::indices_in(*v).contains(None),
            },
    {
        let ghost items = host::indices_in(*v);
        let count: u32 = indices_len(v);
        let mut indices: Vec<u32> = Vec::new();
        let mut i: u32 = 0;
        while i < count
            invariant
                i <= count,
                items == host::indices_in(*v),
                count == items.len(),
                indices@ == wanted(items.take(i as int)),
                forall|j: int| 0 <= j < i ==> #[trigger] items[j] is Some,
            decreases count - i,
        {
            match index_at(v, i) {
                Some(index) => {
                    indices.push(index);
                    assert(indices@ =~= wanted(items.take(i + 1)));
                },
                None => {
                    assert(items[i as int] is None);
                    return Err(Trap::Conversion);
                },
            }
            i = i + 1;
        }
        assert(items.take(i as int) =~= items);
        Ok(indices)
    }

    /// Checks the items of a list of indices against each other.
    fn check_pairs(v: &soroban_sdk::Vec<u32>) -> (r: Result<(), Trap>)
        ensures
            r == state::answer(pairs_refusal(host::indices_in(*v), 0), ()),
    {
        let ghost items = host::indices_in(*v);
        let count: u32 = indices_len(v);
        let mut i: u32 = 0;
        while i < count
            invariant
                i <= count,
                items == host::indices_in(*v),
                count == items.len(),
                pairs_refusal(items, 0) == pairs_refusal(items, i as int),
            decreases count - i,
        {
            let mut j: u32 = i + 1;
            while j < count
                invariant
                    i < j <= count,
                    items == host::indices_in(*v),
                    count == items.len(),
                    pairs_refusal(items, 0) == pairs_refusal(items, i as int),
                    row_refusal(items, i as int, i + 1) == row_refusal(items, i as int, j as int),
                decreases count - j,
            {
                match (index_at(v, i), index_at(v, j)) {
                    (Some(a), Some(b)) => {
                        if a == b {
                            return Err(Trap::Error(EscrowError::DuplicateMilestoneInRefund));
                        }
                    },
                    _ => {
                        return Err(Trap::Conversion);
                    },
                }
                j = j + 1;
            }
            i = i + 1;
        }
        Ok(())
    }

    /// Checks every milestone of a list and adds up what they are worth.
    fn open_amounts(ms: &Vec<Milestone>, indices: &Vec<u32>) -> (r: Result<i128, Trap>)
        requires
            accounts::bounded(ms@),
            indices@.no_duplicates(),
        ensures
            match r {
                Ok(amount) => milestones_refusal(ms@, indices@) is None && amount == amount_of(
                    ms@,
                    indices@,
                ),
                Err(trap) => milestones_refusal(ms@, indices@) == Some(trap),
            },
    {
        let mut sum: i128 = 0;
        let mut k: usize = 0;
        while k < indices.len()
            invariant
                k <= indices@.len(),
                accounts::bounded(ms@),
                indices@.no_duplicates(),
                milestones_refusal(ms@, indices@.take(k as int)) is None,
                sum == amount_of(ms@, indices@.take(k as int)),
            decreases indices@.len() - k,
        {
            assert(indices@.take(k + 1).drop_last() =~= indices@.take(k as int));
            assert(indices@.take(k + 1).last() == indices@[k as int]);
            match Self::open_amount(ms, indices[k]) {
                Ok(amount) => {
                    proof {
                        assert(indices@.take(k + 1).no_duplicates());
                        lemma_released_at(ms@, indices@.take(k + 1));
                        lemma_released_at(ms@, indices@.take(k as int));
                    }
                    sum = sum + amount;
                },
                Err(trap) => {
                    proof {
                        lemma_refusal_of_prefix(ms@, indices@, k + 1);
                    }
                    return Err(trap);
                },
            }
            k = k + 1;
        }
        assert(indices@.take(k as int) =~= indices@);
        Ok(sum)
    }

    /// Checks the approvals of every milestone of a list.
    fn check_all_approvals(
        &self,
        data: &EscrowContractData,
        contract_id: u32,
        indices: &Vec<u32>,
        now: u64,
    ) -> (r: Result<(), Trap>)
        requires
            self@.contracts.contains_key(contract_id),
            *data == self@.contracts[contract_id],
        ensures
            r == state::answer(self@.approvals_refusal(contract_id, indices@, now), ()),
    {
        let mut k: usize = 0;
        while k < indices.len()
            invariant
                k <= indices@.len(),
                self@.contracts.contains_key(contract_id),
                *data == self@.contracts[contract_id],
                self@.approvals_refusal(contract_id, indices@.take(k as int), now) is None,
            decreases indices@.len() - k,
        {
            assert(indices@.take(k + 1).drop_last() =~= indices@.take(k as int));
            assert(indices@.take(k + 1).last() == indices@[k as int]);
            match self.check_approvals(data, contract_id, indices[k], now) {
                Ok(_) => {},
                Err(trap) => {
                    proof {
                        self@.lemma_approvals_of_prefix(contract_id, indices@, now, k + 1);
                    }
                    return Err(trap);
                },
            }
            k = k + 1;
        }
        assert(indices@.take(k as int) =~= indices@);
        Ok(())
    }

    /// Checks that `caller` can release the milestones of a list, and returns
    /// their indices and what they are worth together.
    fn check_release_all(
        &self,
        call: &Invocation,
        contract_id: u32,
        caller: &Address,
        milestone_indices: &soroban_sdk::Vec<u32>,
    ) -> (r: Result<(Vec<u32>, i128), Trap>)
        requires
            self@.books_ok(contract_id),
        ensures
            ({
                let items = host::indices_in(*milestone_indices);
                let refusal = self@.release_all_refusal(*call, contract_id, *caller, items);
                match r {
                    Ok((indices, amount)) => {
                        &&& refusal is None
                        &&& indices@ == wanted(items)
                        &&& amount == amount_of(self@.milestones[contract_id], wanted(items))
                    },
                    Err(trap) => refusal == Some(trap),
                }
            }),
    {
        let ghost items = host::indices_in(*milestone_indices);
        if indices_len(milestone_indices) == 0 {
            return Err(Trap::Error(EscrowError::EmptyRefundRequest));
        }
        match Self::check_pairs(milestone_indices) {
            Ok(_) => {},
            Err(trap) => {
                return Err(trap);
            },
        }
        match call.require_auth(caller) {
            Ok(_) => {},
            Err(trap) => {
                return Err(trap);
            },
        }
        let data: &EscrowContractData = match self.contracts.get(&contract_id) {
            Some(data) => data,
            None => {
                return Err(Trap::Error(EscrowError::ContractNotFound));
            },
        };
        if self.finalized_already(contract_id) {
            return Err(Trap::Error(EscrowError::ContractFinalized));
        }
        let indices: Vec<u32> = match Self::read_indices(milestone_indices) {
            Ok(indices) => indices,
            Err(trap) => {
                return Err(trap);
            },
        };
        proof {
            lemma_distinct(items);
        }
        let ms: &Vec<Milestone> = self.milestones.get(&contract_id).unwrap();
        let amount: i128 = match Self::open_amounts(ms, &indices) {
            Ok(amount) => amount,
            Err(trap) => {
                return Err(trap);
            },
        };
        if data.status != ContractStatus::Funded {
            return Err(Trap::Error(EscrowError::InvalidState));
        }
        if !data.has_release_role(caller) {
            return Err(Trap::Error(EscrowError::UnauthorizedRole));
        }
        match self.check_all_approvals(data, contract_id, &indices, call.timestamp) {
            Ok(_) => {},
            Err(trap) => {
                return Err(trap);
            },
        }
        proof {
            accounts::lemma_bounded(ms@);
        }
        if data.total_deposited - data.released_amount - data.refunded_amount < amount {
            return Err(Trap::Error(EscrowError::InsufficientFunds));
        }
        Ok((indices, amount))
    }

    /// Releases several milestones of a funded contract to the freelancer on
    /// behalf of `caller`, all of them or none, and returns what they are worth
    /// together.
    pub fn release_milestones(
        &mut self,
        call: &Invocation,
        contract_id: u32,
        caller: Address,
        milestone_indices: &soroban_sdk::Vec<u32>,
    ) -> (r: Result<i128, Trap>)
        requires
            old(self)@.books_ok(contract_id),
            old(self)@.release_all_refusal(
                *call,
                contract_id,
                caller,
                host::indices_in(*milestone_indices),
            ) is None ==> old(self)@.accumulated_protocol_fees + fees_of(
                old(self)@.milestones[contract_id],
                wanted(host::indices_in(*milestone_indices)),
                old(self)@.fee_bps(),
            ) <= i128::MAX,
        ensures
            r == state::answer(
                old(self)@.release_all_refusal(
                    *call,
                    contract_id,
                    caller,
                    host::indices_in(*milestone_indices),
                ),
                amount_of(
                    old(self)@.milestones[contract_id],
                    wanted(host::indices_in(*milestone_indices)),
                ) as i128,
            ),
            final(self)@ == if r is Ok {
                old(self)@.after_release_all(
                    contract_id,
                    wanted(host::indices_in(*milestone_indices)),
                )
            } else {
                old(self)@
            },
            final(self)@.books_ok(contract_id),
            old(self)@.wf() ==> final(self)@.wf(),
    {
        let ghost items = host::indices_in(*milestone_indices);
        let (indices, amount): (Vec<u32>, i128) = match self.check_release_all(
            call,
            contract_id,
            &caller,
            milestone_indices,
        ) {
            Ok(found) => found,
            Err(trap) => {
                return Err(trap);
            },
        };
        let mut data: EscrowContractData = self.contracts.get(&contract_id).unwrap().clone();
        let ghost before = self@.milestones[contract_id];
        let ghost fees_before = self.accumulated_protocol_fees;
        let fee_bps: u32 = self.protocol_fee_bps.unwrap_or(0);
        proof {
            self@.lemma_release_all_balances(*call, contract_id, caller, items);
            lemma_distinct(items);
            accounts::lemma_bounded(before);
        }
        let mut ms: Vec<Milestone> = self.milestones.remove(&contract_id).unwrap();
        let mut k: usize = 0;
        assert(ms@ =~= released_at(before, indices@.take(0)));
        assert(self@.approval_times =~= old(self)@.approval_times.remove_keys(
            approval_keys(contract_id, indices@.take(0)),
        ));
        while k < indices.len()
            invariant
                k <= indices@.len(),
                accounts::bounded(before),
                indices@.no_duplicates(),
                milestones_refusal(before, indices@) is None,
                fees_before + fees_of(before, indices@, fee_bps) <= i128::MAX,
                ms@ == released_at(before, indices@.take(k as int)),
                self.accumulated_protocol_fees == fees_before + fees_of(
                    before,
                    indices@.take(k as int),
                    fee_bps,
                ),
                self@.approval_times == old(self)@.approval_times.remove_keys(
                    approval_keys(contract_id, indices@.take(k as int)),
                ),
                self@ == (EscrowState {
                    milestones: old(self)@.milestones.remove(contract_id),
                    approval_times: self@.approval_times,
                    accumulated_protocol_fees: self@.accumulated_protocol_fees,
                    ..old(self)@
                }),
            decreases indices@.len() - k,
        {
            let index: u32 = indices[k];
            proof {
                assert(indices@.take(k + 1).drop_last() =~= indices@.take(k as int));
                assert(indices@.take(k + 1).last() == index);
                assert(indices@.take(k + 1).no_duplicates());
                lemma_list_prefix(before, indices@, fee_bps, k + 1);
                lemma_list_prefix(before, indices@, fee_bps, k as int);
                lemma_released_step(before, indices@.take(k + 1));
                accounts::lemma_bounded(before);
            }
            let i: usize = index as usize;
            let milestone: Milestone = ms[i];
            ms.set(
                i,
                Milestone {
                    amount: milestone.amount,
                    released: true,
                    refunded: milestone.refunded,
                },
            );
            let fee: i128 = accounts::calculate_protocol_fee(milestone.amount, fee_bps);
            self.accumulated_protocol_fees = self.accumulated_protocol_fees + fee;
            let _ = self.approval_times.remove(&(contract_id, index));
            proof {
                lemma_contains_step(indices@.take(k + 1));
                assert(self@.approval_times =~= old(self)@.approval_times.remove_keys(
                    approval_keys(contract_id, indices@.take(k + 1)),
                ));
            }
            k = k + 1;
        }
        assert(indices@.take(k as int) =~= indices@);
        proof {
            lemma_released_at(before, indices@);
        }
        data.released_amount = data.released_amount + amount;
        if accounts::every_settled(&ms) {
            data.status = ContractStatus::Completed;
        }
        let ghost others = self@.milestones;
        self.milestones.set(contract_id, ms);
        self.contracts.set(contract_id, data);
        assert(self@.milestones =~= others.insert(contract_id, released_at(before, indices@)));
        assert(self@.milestones =~= old(self)@.milestones.insert(
            contract_id,
            released_at(before, indices@),
        ));
        assert(self@ =~= old(self)@.after_release_all(contract_id, wanted(items)));
        Ok(amount)
    }

    /// Adds the fees on the milestones of a list to a sum, where the result is
    /// still an `i128`.
    fn add_fees(
        start: i128,
        ms: &Vec<Milestone>,
        indices: &Vec<u32>,
        bps: u32,
    ) -> (r: Option<i128>)
        requires
            accounts::bounded(ms@),
            milestones_refusal(ms@, indices@) is None,
        ensures
            r == if start + fees_of(ms@, indices@, bps) <= i128::MAX {
                Some((start + fees_of(ms@, indices@, bps)) as i128)
            } else {
                None
            },
    {
        let mut sum: i128 = start;
        let mut k: usize = 0;
        while k < indices.len()
            invariant
                k <= indices@.len(),
                accounts::bounded(ms@),
                milestones_refusal(ms@, indices@) is None,
                sum == start + fees_of(ms@, indices@.take(k as int), bps),
            decreases indices@.len() - k,
        {
            proof {
                assert(indices@.take(k + 1).drop_last() =~= indices@.take(k as int));
                assert(indices@.take(k + 1).last() == indices@[k as int]);
                lemma_list_prefix(ms@, indices@, bps, k + 1);
                accounts::lemma_bounded(ms@);
            }
            let fee: i128 = accounts::calculate_protocol_fee(
                ms[indices[k] as usize].amount,
                bps,
            );
            match sum.checked_add(fee) {
                Some(more) => {
                    sum = more;
                },
                None => {
                    return None;
                },
            }
            k = k + 1;
        }
        assert(indices@.take(k as int) =~= indices@);
        Some(sum)
    }

    /// [`Escrow::release_milestones`] where the sum of the fees has room for
    /// those of this release; otherwise nothing happens.
    pub fn release_milestones_checked(
        &mut self,
        call: &Invocation,
        contract_id: u32,
        caller: Address,
        milestone_indices: &soroban_sdk::Vec<u32>,
    ) -> (r: Option<Result<i128, Trap>>)
        requires
            old(self)@.books_ok(contract_id),
        ensures
            ({
                let items = host::indices_in(*milestone_indices);
                let ms = old(self)@.milestones[contract_id];
                let refusal = old(self)@.release_all_refusal(*call, contract_id, caller, items);
                &&& r == if refusal is None && old(self)@.accumulated_protocol_fees + fees_of(
                    ms,
                    wanted(items),
                    old(self)@.fee_bps(),
                ) > i128::MAX {
                    None
                } else {
                    Some(state::answer(refusal, amount_of(ms, wanted(items)) as i128))
                }
                &&& final(self)@ == if r is Some && r->0 is Ok {
                    old(self)@.after_release_all(contract_id, wanted(items))
                } else {
                    old(self)@
                }
            }),
            final(self)@.books_ok(contract_id),
            old(self)@.wf() ==> final(self)@.wf(),
    {
        let (indices, _): (Vec<u32>, i128) = match self.check_release_all(
            call,
            contract_id,
            &caller,
            milestone_indices,
        ) {
            Ok(found) => found,
            Err(trap) => {
                return Some(Err(trap));
            },
        };
        let ms: &Vec<Milestone> = self.milestones.get(&contract_id).unwrap();
        let fee_bps: u32 = self.protocol_fee_bps.unwrap_or(0);
        if Self::add_fees(self.accumulated_protocol_fees, ms, &indices, fee_bps).is_none() {
            return None;
        }
        Some(self.release_milestones(call, contract_id, caller, milestone_indices))
    }
}

} // verus!
