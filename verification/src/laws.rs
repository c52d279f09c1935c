//! What holds of the escrow as a whole, over any number of calls.

use soroban_sdk::Address;
use vstd::prelude::*;

use crate::accounts;
use crate::host;
use crate::lifecycle;
use crate::release;
use crate::state;
use crate::state::EscrowState;
use crate::types::{
    ContractStatus, EscrowContractData, EscrowError, Invocation, Milestone, Trap,
    MAX_MILESTONES, MAX_TOTAL_ESCROW_STROOPS,
};

verus! {

/// A call of one of the entry points that can change the state.
pub enum Step {
    CreateContract {
        call: Invocation,
        client: Address,
        freelancer: Address,
        arbiter: Option<Address>,
        milestones: soroban_sdk::Vec<i128>,
        approval_expiry_seconds: Option<u64>,
    },
    DepositFunds { contract_id: u32, amount: i128 },
    ApproveMilestone { call: Invocation, contract_id: u32, milestone_index: u32 },
    ReleaseMilestone { call: Invocation, contract_id: u32, milestone_index: u32 },
    ReleaseMilestoneBy {
        call: Invocation,
        contract_id: u32,
        caller: Address,
        milestone_index: u32,
    },
    ReleaseMilestones {
        call: Invocation,
        contract_id: u32,
        caller: Address,
        milestone_indices: soroban_sdk::Vec<u32>,
    },
    CancelContract { call: Invocation, contract_id: u32, caller: Address },
    RequestClientMigration { call: Invocation, contract_id: u32, proposed_client: Address },
    ConfirmClientMigration { call: Invocation, contract_id: u32 },
    FinalizeClientMigration { call: Invocation, contract_id: u32 },
    CancelClientMigration { call: Invocation, contract_id: u32 },
    SetProtocolFeeBps { call: Invocation, new_bps: u32 },
    ProposeGovernanceAdmin { call: Invocation, proposed: Address },
    AcceptGovernanceAdmin { call: Invocation },
}

impl EscrowState {
    /// Why a step is refused.
    pub open spec fn refusal(self, step: Step) -> Option<Trap> {
        match step {
            Step::CreateContract { call, client, freelancer, arbiter, milestones, .. } =>
                lifecycle::opening_refusal(
                call,
                client,
                freelancer,
                arbiter,
                host::amounts_in(milestones),
            ),
            Step::DepositFunds { contract_id, amount } => self.deposit_refusal(contract_id, amount),
            Step::ApproveMilestone { .. } => None,
            Step::ReleaseMilestone { call, contract_id, milestone_index } => self.release_refusal(
                contract_id,
                milestone_index,
                call.timestamp,
            ),
            Step::ReleaseMilestoneBy { call, contract_id, caller, milestone_index } =>
                self.release_by_refusal(call, contract_id, caller, milestone_index),
            Step::ReleaseMilestones { call, contract_id, caller, milestone_indices } =>
                self.release_all_refusal(
                call,
                contract_id,
                caller,
                host::indices_in(milestone_indices),
            ),
            Step::CancelContract { call, contract_id, caller } => self.cancel_refusal(
                call,
                contract_id,
                caller,
            ),
            Step::RequestClientMigration { call, contract_id, proposed_client } =>
                self.request_refusal(call, contract_id, proposed_client),
            Step::ConfirmClientMigration { call, contract_id } => self.confirm_refusal(
                call,
                contract_id,
            ),
            Step::FinalizeClientMigration { call, contract_id } => self.finalize_refusal(
                call,
                contract_id,
            ),
            Step::CancelClientMigration { call, contract_id } => self.withdraw_refusal(
                call,
                contract_id,
            ),
            Step::SetProtocolFeeBps { call, .. } => self.admin_refusal(call),
            Step::ProposeGovernanceAdmin { call, .. } => self.admin_refusal(call),
            Step::AcceptGovernanceAdmin { call } => self.accept_admin_refusal(call),
        }
    }

    /// The state after a step that is not refused.
    pub open spec fn after(self, step: Step) -> EscrowState {
        match step {
            Step::CreateContract {
                client,
                freelancer,
                arbiter,
                milestones,
                approval_expiry_seconds,
                ..
            } => self.after_create(
                lifecycle::opening_record(
                    client,
                    freelancer,
                    arbiter,
                    milestones,
                    approval_expiry_seconds,
                ),
            ),
            Step::DepositFunds { contract_id, amount } => self.after_deposit(contract_id, amount),
            Step::ApproveMilestone { call, contract_id, milestone_index } => self.after_approve(
                contract_id,
                milestone_index,
                call.timestamp,
            ),
            Step::ReleaseMilestone { contract_id, milestone_index, .. } => self.after_release(
                contract_id,
                milestone_index,
            ),
            Step::ReleaseMilestoneBy { call, contract_id, caller, milestone_index } =>
                self.after_release_by(call, contract_id, caller, milestone_index),
            Step::ReleaseMilestones { contract_id, milestone_indices, .. } =>
                self.after_release_all(
                contract_id,
                release::wanted(host::indices_in(milestone_indices)),
            ),
            Step::CancelContract { call, contract_id, caller } => self.after_cancel(
                call,
                contract_id,
                caller,
            ),
            Step::RequestClientMigration { call, contract_id, proposed_client } =>
                self.after_request(call, contract_id, proposed_client),
            Step::ConfirmClientMigration { call, contract_id } => self.after_confirm(
                call,
                contract_id,
            ),
            Step::FinalizeClientMigration { call, contract_id } => self.after_finalize(
                call,
                contract_id,
            ),
            Step::CancelClientMigration { call, contract_id } => self.after_withdraw(
                call,
                contract_id,
            ),
            Step::SetProtocolFeeBps { call, new_bps } => self.after_set_fee(call, new_bps),
            Step::ProposeGovernanceAdmin { call, proposed } => self.after_propose_admin(
                call,
                proposed,
            ),
            Step::AcceptGovernanceAdmin { call } => self.after_accept_admin(call),
        }
    }

    /// The state after a step, whether it is refused or not.
    pub open spec fn take_step(self, step: Step) -> EscrowState {
        if self.refusal(step) is None {
            self.after(step)
        } else {
            self
        }
    }

    /// Whether there is a number left for another contract, where a step opens
    /// one.
    pub open spec fn has_room(self, step: Step) -> bool {
        step is CreateContract && self.refusal(step) is None ==> self.contract_count < u32::MAX
    }

    /// The state after a sequence of steps.
    pub open spec fn run(self, steps: Seq<Step>) -> EscrowState
        decreases steps.len(),
    {
        if steps.len() == 0 {
            self
        } else {
            self.run(steps.drop_last()).take_step(steps.last())
        }
    }

    /// Whether there is a number left for every contract that a sequence of steps
    /// opens.
    pub open spec fn has_room_for_all(self, steps: Seq<Step>) -> bool {
        forall|k: int|
            0 <= k < steps.len() ==> self.run(steps.take(k)).has_room(#[trigger] steps[k])
    }
}

/// The contract that a step acts on, if it acts on one that exists.
pub open spec fn acts_on(step: Step) -> Option<u32> {
    match step {
        Step::DepositFunds { contract_id, .. } => Some(contract_id),
        Step::ApproveMilestone { contract_id, .. } => Some(contract_id),
        Step::ReleaseMilestone { contract_id, .. } => Some(contract_id),
        Step::ReleaseMilestoneBy { contract_id, .. } => Some(contract_id),
        Step::ReleaseMilestones { contract_id, .. } => Some(contract_id),
        Step::CancelContract { contract_id, .. } => Some(contract_id),
        Step::RequestClientMigration { contract_id, .. } => Some(contract_id),
        Step::ConfirmClientMigration { contract_id, .. } => Some(contract_id),
        Step::FinalizeClientMigration { contract_id, .. } => Some(contract_id),
        Step::CancelClientMigration { contract_id, .. } => Some(contract_id),
        _ => None,
    }
}

/// Every step keeps the invariant of the stored state.
pub proof fn step_keeps_invariant(s: EscrowState, step: Step)
    requires
        s.wf(),
        s.has_room(step),
    ensures
        s.take_step(step).wf(),
{
    if s.refusal(step) is None {
        match step {
            Step::CreateContract {
                client,
                freelancer,
                arbiter,
                milestones,
                approval_expiry_seconds,
                ..
            } => {
                s.lemma_create_keeps_books(
                    lifecycle::opening_record(
                        client,
                        freelancer,
                        arbiter,
                        milestones,
                        approval_expiry_seconds,
                    ),
                );
            },
            Step::DepositFunds { contract_id, amount } => {
                assert(s.books_ok(contract_id));
                s.lemma_deposit_balances(contract_id, amount);
            },
            Step::ReleaseMilestone { contract_id, milestone_index, .. } => {
                assert(s.books_ok(contract_id));
                s.lemma_release_balances(contract_id, milestone_index);
            },
            Step::ReleaseMilestoneBy { call, contract_id, caller, milestone_index } => {
                assert(s.books_ok(contract_id));
                s.lemma_release_by_balances(call, contract_id, caller, milestone_index);
            },
            Step::ReleaseMilestones { call, contract_id, caller, milestone_indices } => {
                assert(s.books_ok(contract_id));
                s.lemma_release_all_balances(
                    call,
                    contract_id,
                    caller,
                    host::indices_in(milestone_indices),
                );
            },
            Step::CancelContract { call, contract_id, caller } => {
                assert(s.books_ok(contract_id));
                s.lemma_cancel_balances(call, contract_id, caller);
            },
            Step::FinalizeClientMigration { call, contract_id } => {
                s.lemma_finalize_keeps_books(call, contract_id);
            },
            _ => {
                s.lemma_same_books(s.after(step));
            },
        }
    }
}

proof fn lemma_room_for_all(s: EscrowState, steps: Seq<Step>)
    requires
        s.has_room_for_all(steps),
        steps.len() > 0,
    ensures
        s.has_room_for_all(steps.drop_last()),
        s.run(steps.drop_last()).has_room(steps.last()),
{
    let rest = steps.drop_last();
    assert forall|k: int| 0 <= k < rest.len() implies s.run(rest.take(k)).has_room(
        #[trigger] rest[k],
    ) by {
        assert(rest.take(k) =~= steps.take(k));
        assert(rest[k] == steps[k]);
    }
    assert(steps.take(steps.len() - 1) =~= rest);
    assert(s.run(rest).has_room(steps[steps.len() - 1]));
}

/// After any steps, whether refused or not, the money of every contract is
/// accounted for: what was deposited is what was released, what was refunded
/// and what is available, and what is available is never negative.
pub proof fn accounts_balance_after_any_steps(s: EscrowState, steps: Seq<Step>, contract_id: u32)
    requires
        s.wf(),
        s.has_room_for_all(steps),
    ensures
        s.run(steps).wf(),
        s.run(steps).contracts.contains_key(contract_id) ==> {
            let data = s.run(steps).contracts[contract_id];
            &&& data.total_deposited == data.released_amount + data.refunded_amount
                + data.available()
            &&& data.available() >= 0
        },
    decreases steps.len(),
{
    if steps.len() > 0 {
        let rest = steps.drop_last();
        lemma_room_for_all(s, steps);
        accounts_balance_after_any_steps(s, rest, contract_id);
        step_keeps_invariant(s.run(rest), steps.last());
    }
    assert(s.run(steps).books_ok(contract_id));
}

/// A step that acts on one contract leaves the record and the milestones of
/// every other one as they were; opening a contract touches no existing one.
pub proof fn step_touches_one_contract(s: EscrowState, step: Step, other: u32)
    requires
        s.wf(),
        s.contracts.contains_key(other),
        acts_on(step) != Some(other),
    ensures
        s.take_step(step).contracts.contains_key(other),
        s.take_step(step).contracts[other] == s.contracts[other],
        s.take_step(step).milestones[other] == s.milestones[other],
{
    assert(s.books_ok(other));
}

/// A completed or cancelled contract stays completed or cancelled.
pub proof fn end_of_contract_is_final(s: EscrowState, step: Step, contract_id: u32)
    requires
        s.wf(),
        s.contracts.contains_key(contract_id),
        s.contracts[contract_id].status is Completed || s.contracts[contract_id].status is Cancelled,
    ensures
        s.take_step(step).contracts[contract_id].status == s.contracts[contract_id].status,
{
    if acts_on(step) != Some(contract_id) {
        step_touches_one_contract(s, step, contract_id);
    }
}

/// A contract goes from created to funded by a deposit, from funded to completed
/// by a release, and from any status but completed, refunded or cancelled to
/// cancelled by a cancellation; no step changes its status otherwise.
pub proof fn status_changes_are_these(s: EscrowState, step: Step, contract_id: u32)
    requires
        s.wf(),
        s.contracts.contains_key(contract_id),
    ensures
        ({
            let before = s.contracts[contract_id].status;
            let after = s.take_step(step).contracts[contract_id].status;
            ||| after == before
            ||| before is Created && after is Funded && step is DepositFunds
            ||| before is Funded && after is Completed && (step is ReleaseMilestone
                || step is ReleaseMilestoneBy || step is ReleaseMilestones)
            ||| (before is Created || before is Funded || before is Disputed) && after is Cancelled
                && step is CancelContract
        }),
{
    if acts_on(step) != Some(contract_id) {
        step_touches_one_contract(s, step, contract_id);
    }
}

/// No step takes back what was deposited or what was released.
pub proof fn money_moves_forward(s: EscrowState, step: Step, contract_id: u32)
    requires
        s.wf(),
        s.contracts.contains_key(contract_id),
    ensures
        s.take_step(step).contracts[contract_id].total_deposited
            >= s.contracts[contract_id].total_deposited,
        s.take_step(step).contracts[contract_id].released_amount
            >= s.contracts[contract_id].released_amount,
{
    let ms = s.milestones[contract_id];
    assert(s.books_ok(contract_id));
    accounts::lemma_bounded(ms);
    if acts_on(step) != Some(contract_id) {
        step_touches_one_contract(s, step, contract_id);
    } else if s.refusal(step) is None {
        match step {
            Step::ReleaseMilestones { milestone_indices, .. } => {
                let items = host::indices_in(milestone_indices);
                release::lemma_distinct(items);
                release::lemma_released_at(ms, release::wanted(items));
            },
            _ => {},
        }
    }
}

/// No step alters the list of milestones of a contract: neither the list in its
/// record nor the amounts of the milestones that are kept beside it.
pub proof fn milestone_list_is_fixed(s: EscrowState, step: Step, contract_id: u32)
    requires
        s.wf(),
        s.contracts.contains_key(contract_id),
    ensures
        s.take_step(step).contracts[contract_id].milestones == s.contracts[contract_id].milestones,
        accounts::listed(s.take_step(step).milestones[contract_id]) == accounts::listed(
            s.milestones[contract_id],
        ),
{
    let ms = s.milestones[contract_id];
    assert(s.books_ok(contract_id));
    if acts_on(step) != Some(contract_id) {
        step_touches_one_contract(s, step, contract_id);
    } else if s.refusal(step) is None {
        match step {
            Step::ReleaseMilestones { milestone_indices, .. } => {
                let items = host::indices_in(milestone_indices);
                release::lemma_distinct(items);
                release::lemma_released_at(ms, release::wanted(items));
            },
            _ => {
                assert(accounts::listed(s.after(step).milestones[contract_id])
                    =~= accounts::listed(ms));
            },
        }
    }
}

/// After any steps there is a record under every number that was given out and
/// under no other; no record is ever removed, and its list of milestones is the
/// one that it was opened with.
pub proof fn records_stay(s: EscrowState, steps: Seq<Step>, contract_id: u32)
    requires
        s.wf(),
        s.has_room_for_all(steps),
    ensures
        s.run(steps).contracts.contains_key(contract_id) <==> contract_id
            < s.run(steps).contract_count,
        s.contract_count <= s.run(steps).contract_count,
        s.contracts.contains_key(contract_id) ==> {
            &&& s.run(steps).contracts.contains_key(contract_id)
            &&& s.run(steps).contracts[contract_id].milestones
                == s.contracts[contract_id].milestones
        },
    decreases steps.len(),
{
    accounts_balance_after_any_steps(s, steps, contract_id);
    if steps.len() > 0 {
        let rest = steps.drop_last();
        lemma_room_for_all(s, steps);
        accounts_balance_after_any_steps(s, rest, contract_id);
        records_stay(s, rest, contract_id);
        if s.contracts.contains_key(contract_id) {
            milestone_list_is_fixed(s.run(rest), steps.last(), contract_id);
        }
    }
}

/// Every contract keeps the bounds that the escrow announces.
pub proof fn bounds_are_kept(s: EscrowState, contract_id: u32)
    requires
        s.wf(),
        s.contracts.contains_key(contract_id),
    ensures
        1 <= host::amounts_in(s.contracts[contract_id].milestones).len() <= MAX_MILESTONES,
        accounts::total(s.milestones[contract_id]) <= MAX_TOTAL_ESCROW_STROOPS,
        s.contracts[contract_id].total_deposited <= MAX_TOTAL_ESCROW_STROOPS,
{
    assert(s.books_ok(contract_id));
}

/// In a contract that opens, the client, the freelancer and the arbiter are
/// different addresses.
pub proof fn roles_differ_at_opening(
    call: Invocation,
    client: Address,
    freelancer: Address,
    arbiter: Option<Address>,
    items: Seq<Option<i128>>,
)
    requires
        lifecycle::opening_refusal(call, client, freelancer, arbiter, items) is None,
    ensures
        client != freelancer,
        arbiter matches Some(a) ==> a != client && a != freelancer,
{
}

/// A milestone cannot be released twice, whenever the second attempt comes.
pub proof fn second_release_is_refused(
    s: EscrowState,
    contract_id: u32,
    milestone_index: u32,
    first: u64,
    second: u64,
)
    requires
        s.release_refusal(contract_id, milestone_index, first) is None,
    ensures
        s.after_release(contract_id, milestone_index).release_refusal(
            contract_id,
            milestone_index,
            second,
        ) == state::refuse(
            if s.after_release(contract_id, milestone_index).contracts[contract_id].status
                is Completed {
                EscrowError::InvalidState
            } else {
                EscrowError::MilestoneAlreadyReleased
            },
        ),
{
}

/// A contract that holds what its milestones are worth takes no more deposits.
pub proof fn overfunding_is_refused(s: EscrowState, contract_id: u32, amount: i128)
    requires
        s.contracts.contains_key(contract_id),
        s.contracts[contract_id].total_deposited == accounts::total(s.milestones[contract_id]),
    ensures
        s.deposit_refusal(contract_id, amount) == state::refuse(EscrowError::InvalidDepositAmount),
{
}

/// The sum of a list of deposits.
pub open spec fn paid(deposits: Seq<i128>) -> int
    decreases deposits.len(),
{
    if deposits.len() == 0 {
        0
    } else {
        paid(deposits.drop_last()) + deposits.last()
    }
}

impl EscrowState {
    /// The state after a list of deposits into one contract.
    pub open spec fn after_deposits(self, contract_id: u32, deposits: Seq<i128>) -> EscrowState
        decreases deposits.len(),
    {
        if deposits.len() == 0 {
            self
        } else {
            self.after_deposits(contract_id, deposits.drop_last()).take_step(
                Step::DepositFunds { contract_id, amount: deposits.last() },
            )
        }
    }
}

/// Positive deposits that together fit into a new contract are all accepted,
/// and leave it funded with their sum.
pub proof fn incremental_deposits_are_accepted(
    s: EscrowState,
    contract_id: u32,
    deposits: Seq<i128>,
)
    requires
        s.books_ok(contract_id),
        s.contracts.contains_key(contract_id),
        s.contracts[contract_id].status is Created || s.contracts[contract_id].status is Funded,
        forall|k: int| 0 <= k < deposits.len() ==> #[trigger] deposits[k] > 0,
        s.contracts[contract_id].total_deposited + paid(deposits) <= accounts::total(
            s.milestones[contract_id],
        ),
    ensures
        ({
            let after = s.after_deposits(contract_id, deposits);
            &&& after.books_ok(contract_id)
            &&& after.milestones == s.milestones
            &&& after.contracts.contains_key(contract_id)
            &&& after.contracts[contract_id].total_deposited
                == s.contracts[contract_id].total_deposited + paid(deposits)
            &&& deposits.len() > 0 ==> after.contracts[contract_id].status is Funded
            &&& deposits.len() == 0 ==> after == s
        }),
        forall|k: int|
            0 <= k < deposits.len() ==> s.after_deposits(contract_id, deposits.take(k)).refusal(
                Step::DepositFunds { contract_id, amount: #[trigger] deposits[k] },
            ) is None,
    decreases deposits.len(),
{
    if deposits.len() > 0 {
        let rest = deposits.drop_last();
        let last = deposits.last();
        assert(last == deposits[deposits.len() - 1]);
        assert forall|k: int| 0 <= k < rest.len() implies #[trigger] rest[k] > 0 by {
            assert(rest[k] == deposits[k]);
        }
        incremental_deposits_are_accepted(s, contract_id, rest);
        let before = s.after_deposits(contract_id, rest);
        accounts::lemma_bounded(s.milestones[contract_id]);
        before.lemma_deposit_balances(contract_id, last);
        assert forall|k: int| 0 <= k < deposits.len() implies s.after_deposits(
            contract_id,
            deposits.take(k),
        ).refusal(Step::DepositFunds { contract_id, amount: #[trigger] deposits[k] }) is None by {
            if k < rest.len() {
                assert(rest.take(k) =~= deposits.take(k));
                assert(rest[k] == deposits[k]);
            } else {
                assert(deposits.take(k) =~= rest);
            }
        }
        if rest.len() == 0 {
            assert(before == s);
        }
    }
}

impl EscrowState {
    /// The state after the first `count` milestones of a contract were released
    /// one after the other, the milestone `k` at the time `times[k]`.
    pub open spec fn after_releases(
        self,
        contract_id: u32,
        times: Seq<u64>,
        count: nat,
    ) -> EscrowState
        decreases count,
    {
        if count == 0 {
            self
        } else {
            let before = self.after_releases(contract_id, times, (count - 1) as nat);
            if before.release_refusal(contract_id, (count - 1) as u32, times[count - 1]) is None {
                before.after_release(contract_id, (count - 1) as u32)
            } else {
                before
            }
        }
    }
}

proof fn lemma_releases_in_order(s: EscrowState, contract_id: u32, times: Seq<u64>, count: nat)
    requires
        s.books_ok(contract_id),
        s.contracts.contains_key(contract_id),
        s.contracts[contract_id].status is Funded,
        s.contracts[contract_id].total_deposited == accounts::total(s.milestones[contract_id]),
        forall|i: int|
            0 <= i < s.milestones[contract_id].len()
                ==> !(#[trigger] s.milestones[contract_id][i]).settled(),
        times.len() == s.milestones[contract_id].len(),
        forall|k: int|
            0 <= k < times.len() ==> !s.approval_expired(contract_id, k as u32, #[trigger] times[k]),
        count <= times.len(),
    ensures
        ({
            let ms = s.milestones[contract_id];
            let after = s.after_releases(contract_id, times, count);
            let now = after.milestones[contract_id];
            let data = after.contracts[contract_id];
            &&& after.books_ok(contract_id)
            &&& after.contracts.contains_key(contract_id)
            &&& now.len() == ms.len()
            &&& forall|i: int| 0 <= i < count ==> #[trigger] now[i] == ms[i].after_release()
            &&& forall|i: int| count <= i < ms.len() ==> #[trigger] now[i] == ms[i]
            &&& data == (EscrowContractData {
                released_amount: data.released_amount,
                status: data.status,
                ..s.contracts[contract_id]
            })
            &&& data.status == if count == ms.len() {
                ContractStatus::Completed
            } else {
                ContractStatus::Funded
            }
            &&& after.approval_times == s.approval_times
            &&& accounts::total(now) == accounts::total(ms)
        }),
        count < times.len() ==> s.after_releases(contract_id, times, count).release_refusal(
            contract_id,
            count as u32,
            times[count as int],
        ) is None,
    decreases count,
{
    let ms = s.milestones[contract_id];
    if count > 0 {
        let k = (count - 1) as nat;
        lemma_releases_in_order(s, contract_id, times, k);
        let before = s.after_releases(contract_id, times, k);
        before.lemma_release_balances(contract_id, k as u32);
        accounts::lemma_release(before.milestones[contract_id], k as int);
        let after = before.after_release(contract_id, k as u32);
        assert(s.after_releases(contract_id, times, count) == after);
        let now = after.milestones[contract_id];
        if count < ms.len() {
            assert(!now[count as int].settled());
        } else {
            assert(accounts::all_settled(now));
        }
    } else if ms.len() > 0 {
        assert(!ms[0].settled());
    }
    if count < times.len() {
        let after = s.after_releases(contract_id, times, count);
        let now = after.milestones[contract_id];
        accounts::lemma_bounded(now);
        accounts::lemma_release(now, count as int);
        accounts::lemma_bounded(now.update(count as int, now[count as int].after_release()));
        assert(!after.approval_expired(contract_id, count as u32, times[count as int]));
    }
}

/// A contract that holds what its milestones are worth can release all of them
/// one by one, as long as no approval runs out: every release is accepted, and
/// the last one leaves the contract completed with all its money released.
pub proof fn full_release_completes(s: EscrowState, contract_id: u32, times: Seq<u64>)
    requires
        s.books_ok(contract_id),
        s.contracts.contains_key(contract_id),
        s.contracts[contract_id].status is Funded,
        s.contracts[contract_id].total_deposited == accounts::total(s.milestones[contract_id]),
        forall|i: int|
            0 <= i < s.milestones[contract_id].len()
                ==> !(#[trigger] s.milestones[contract_id][i]).settled(),
        times.len() == s.milestones[contract_id].len(),
        forall|k: int|
            0 <= k < times.len() ==> !s.approval_expired(contract_id, k as u32, #[trigger] times[k]),
    ensures
        forall|k: int|
            0 <= k < times.len() ==> s.after_releases(contract_id, times, k as nat).release_refusal(
                contract_id,
                k as u32,
                #[trigger] times[k],
            ) is None,
        ({
            let data = s.after_releases(contract_id, times, times.len()).contracts[contract_id];
            &&& data.status is Completed
            &&& data.released_amount == accounts::total(s.milestones[contract_id])
            &&& data.refunded_amount == 0
            &&& data.total_deposited == accounts::total(s.milestones[contract_id])
        }),
{
    assert forall|k: int| 0 <= k < times.len() implies s.after_releases(
        contract_id,
        times,
        k as nat,
    ).release_refusal(contract_id, k as u32, #[trigger] times[k]) is None by {
        lemma_releases_in_order(s, contract_id, times, k as nat);
    }
    lemma_releases_in_order(s, contract_id, times, times.len());
    let after = s.after_releases(contract_id, times, times.len());
    accounts::lemma_bounded(after.milestones[contract_id]);
    lemma_nothing_refunded(after.milestones[contract_id]);
}

/// A contract that opens can be funded with what its milestones are worth in one
/// deposit, and then be released to the end.
pub proof fn open_fund_and_release(
    s: EscrowState,
    call: Invocation,
    data: EscrowContractData,
    times: Seq<u64>,
)
    requires
        s.wf(),
        s.contract_count < u32::MAX,
        lifecycle::opening_refusal(
            call,
            data.client,
            data.freelancer,
            data.arbiter,
            host::amounts_in(data.milestones),
        ) is None,
        data == lifecycle::opening_record(
            data.client,
            data.freelancer,
            data.arbiter,
            data.milestones,
            data.approval_expiry_seconds,
        ),
        times.len() == host::amounts_in(data.milestones).len(),
        forall|k: int|
            0 <= k < times.len() ==> !s.after_create(data).approval_expired(
                s.contract_count,
                k as u32,
                #[trigger] times[k],
            ),
    ensures
        ({
            let id = s.contract_count;
            let total = lifecycle::amounts_total(host::amounts_in(data.milestones));
            let opened = s.after_create(data);
            let funded = opened.after_deposit(id, total as i128);
            let released = funded.after_releases(id, times, times.len());
            &&& opened.deposit_refusal(id, total as i128) is None
            &&& forall|k: int|
                0 <= k < times.len() ==> funded.after_releases(
                    id,
                    times,
                    k as nat,
                ).release_refusal(id, k as u32, #[trigger] times[k]) is None
            &&& released.contracts[id].status is Completed
            &&& released.contracts[id].total_deposited == total
            &&& released.contracts[id].released_amount == total
            &&& released.contracts[id].refunded_amount == 0
        }),
{
    let id = s.contract_count;
    let items = host::amounts_in(data.milestones);
    let total = lifecycle::amounts_total(items);
    let opened = s.after_create(data);
    let ms = lifecycle::fresh_milestones(items);
    s.lemma_create_keeps_books(data);
    assert(opened.books_ok(id));
    lifecycle::lemma_fresh(items);
    accounts::lemma_bounded(ms);
    assert(ms[0].amount > 0);
    let funded = opened.after_deposit(id, total as i128);
    opened.lemma_deposit_balances(id, total as i128);
    assert forall|k: int| 0 <= k < times.len() implies !funded.approval_expired(
        id,
        k as u32,
        #[trigger] times[k],
    ) by {
        assert(!opened.approval_expired(id, k as u32, times[k]));
    }
    full_release_completes(funded, id, times);
}

proof fn lemma_nothing_refunded(ms: Seq<Milestone>)
    requires
        forall|i: int| 0 <= i < ms.len() ==> !(#[trigger] ms[i]).refunded,
    ensures
        accounts::refunded_total(ms) == 0,
    decreases ms.len(),
{
    if ms.len() > 0 {
        let rest = ms.drop_last();
        assert forall|i: int| 0 <= i < rest.len() implies !(#[trigger] rest[i]).refunded by {
            assert(rest[i] == ms[i]);
        }
        lemma_nothing_refunded(rest);
        assert(!ms[ms.len() - 1].refunded);
    }
}

/// A release that comes within the window after an approval is not refused for
/// its age, whatever was approved before; one that comes later is refused until
/// the milestone is approved anew.
pub proof fn approval_opens_a_window(
    s: EscrowState,
    contract_id: u32,
    milestone_index: u32,
    approved: u64,
    now: u64,
    window: u64,
)
    requires
        s.contracts.contains_key(contract_id),
        s.contracts[contract_id].approval_expiry_seconds == Some(window),
    ensures
        s.after_approve(contract_id, milestone_index, approved).approval_expired(
            contract_id,
            milestone_index,
            now,
        ) <==> now > approved + window,
{
}

/// Approving anew leaves the same state as if the earlier approval had never
/// been given.
pub proof fn reapproval_replaces(
    s: EscrowState,
    contract_id: u32,
    milestone_index: u32,
    first: u64,
    second: u64,
)
    ensures
        s.after_approve(contract_id, milestone_index, first).after_approve(
            contract_id,
            milestone_index,
            second,
        ) == s.after_approve(contract_id, milestone_index, second),
{
    assert(s.approval_times.insert((contract_id, milestone_index), first).insert(
        (contract_id, milestone_index),
        second,
    ) =~= s.approval_times.insert((contract_id, milestone_index), second));
}

/// Where a contract sets no window, its approvals never run out.
pub proof fn approval_without_window_lasts(
    s: EscrowState,
    contract_id: u32,
    milestone_index: u32,
    now: u64,
)
    requires
        s.contracts.contains_key(contract_id),
        s.contracts[contract_id].approval_expiry_seconds is None,
    ensures
        !s.approval_expired(contract_id, milestone_index, now),
        s.release_refusal(contract_id, milestone_index, now) != state::refuse(
            EscrowError::ApprovalExpired,
        ),
{
}

/// A release on behalf of a caller uses the approval up: the milestone would
/// need another one.
pub proof fn release_uses_up_the_approval(
    s: EscrowState,
    call: Invocation,
    contract_id: u32,
    caller: Address,
    milestone_index: u32,
    now: u64,
)
    ensures
        s.after_release_by(call, contract_id, caller, milestone_index).approval_refusal(
            contract_id,
            milestone_index,
            now,
        ) == state::refuse(EscrowError::InsufficientApprovals),
{
}

/// A cancelled contract cannot be cancelled again, released from or handed over.
pub proof fn cancelled_contract_is_closed(
    s: EscrowState,
    call: Invocation,
    contract_id: u32,
    who: Address,
    milestone_index: u32,
)
    requires
        s.contracts.contains_key(contract_id),
        s.contracts[contract_id].status is Cancelled,
        call.covers(who),
        call.covers(s.contracts[contract_id].client),
    ensures
        s.cancel_refusal(call, contract_id, who) == state::refuse(EscrowError::AlreadyCancelled),
        s.release_refusal(contract_id, milestone_index, call.timestamp) == state::refuse(
            EscrowError::InvalidState,
        ),
        s.request_refusal(call, contract_id, who) == state::refuse(
            EscrowError::InvalidStatusTransition,
        ),
{
}

/// The client of a funded contract who signs can cancel it exactly as long as
/// nothing was released.
pub proof fn client_cancels_until_first_release(s: EscrowState, call: Invocation, contract_id: u32)
    requires
        s.books_ok(contract_id),
        s.contracts.contains_key(contract_id),
        s.contracts[contract_id].status is Funded,
        call.covers(s.contracts[contract_id].client),
    ensures
        s.cancel_refusal(call, contract_id, s.contracts[contract_id].client) is None
            <==> s.contracts[contract_id].released_amount == 0,
{
    accounts::lemma_bounded(s.milestones[contract_id]);
}

/// Nobody but the client, the freelancer and the arbiter of a contract can cancel
/// it, and only with their signature.
pub proof fn only_parties_cancel(
    s: EscrowState,
    call: Invocation,
    contract_id: u32,
    caller: Address,
)
    requires
        s.cancel_refusal(call, contract_id, caller) is None,
    ensures
        call.covers(caller),
        ({
            let data = s.contracts[contract_id];
            caller == data.client || caller == data.freelancer || data.arbiter == Some(caller)
        }),
{
}

/// Nobody releases on behalf of a contract but those whom it names, with their
/// signature.
pub proof fn only_named_roles_release(
    s: EscrowState,
    call: Invocation,
    contract_id: u32,
    caller: Address,
    milestone_index: u32,
    items: Seq<Option<u32>>,
)
    ensures
        s.release_by_refusal(call, contract_id, caller, milestone_index) is None ==> call.covers(
            caller,
        ) && s.contracts[contract_id].may_release(caller),
        s.release_all_refusal(call, contract_id, caller, items) is None ==> call.covers(caller)
            && s.contracts[contract_id].may_release(caller),
{
}

/// A release on behalf of a caller is refused where the approval of a milestone
/// is missing or has run out, and a release of several milestones where that
/// holds of any one of them.
pub proof fn release_needs_every_approval(
    s: EscrowState,
    call: Invocation,
    contract_id: u32,
    caller: Address,
    items: Seq<Option<u32>>,
    k: int,
)
    requires
        0 <= k < items.len(),
        items[k] is Some,
        s.approval_refusal(contract_id, items[k]->0, call.timestamp) is Some,
    ensures
        s.release_by_refusal(call, contract_id, caller, items[k]->0) is Some,
        s.release_all_refusal(call, contract_id, caller, items) is Some,
{
    let indices = release::wanted(items);
    assert(indices[k] == items[k]->0);
    lemma_one_approval_missing(s, contract_id, indices, call.timestamp, k);
}

proof fn lemma_one_approval_missing(
    s: EscrowState,
    contract_id: u32,
    indices: Seq<u32>,
    now: u64,
    k: int,
)
    requires
        0 <= k < indices.len(),
        s.approval_refusal(contract_id, indices[k], now) is Some,
    ensures
        s.approvals_refusal(contract_id, indices, now) is Some,
    decreases indices.len(),
{
    if k < indices.len() - 1 {
        assert(indices.drop_last()[k] == indices[k]);
        lemma_one_approval_missing(s, contract_id, indices.drop_last(), now, k);
    }
}

/// A request that is confirmed and finalized in time makes the proposed client
/// the client, changes nothing else of the contract, and leaves no request.
pub proof fn migration_replaces_the_client(
    s: EscrowState,
    requested: Invocation,
    confirmed: Invocation,
    finalized: Invocation,
    contract_id: u32,
    proposed: Address,
)
    requires
        s.request_refusal(requested, contract_id, proposed) is None,
        requested.sequence + s.policy.pending_migration_ttl_ledgers <= u32::MAX,
        confirmed.covers(proposed),
        confirmed.sequence <= requested.sequence + s.policy.pending_migration_ttl_ledgers,
        finalized.sequence <= requested.sequence + s.policy.pending_migration_ttl_ledgers,
    ensures
        ({
            let s1 = s.after_request(requested, contract_id, proposed);
            let s2 = s1.after_confirm(confirmed, contract_id);
            let s3 = s2.after_finalize(finalized, contract_id);
            &&& s1.confirm_refusal(confirmed, contract_id) is None
            &&& s2.finalize_refusal(finalized, contract_id) is None
            &&& s3.contracts == s.contracts.insert(
                contract_id,
                s.contracts[contract_id].with_client(proposed),
            )
            &&& s3.client_migrations == s.client_migrations
            &&& s3.milestones == s.milestones
        }),
{
    let s1 = s.after_request(requested, contract_id, proposed);
    let s2 = s1.after_confirm(confirmed, contract_id);
    let s3 = s2.after_finalize(finalized, contract_id);
    assert(s3.client_migrations =~= s.client_migrations);
}

/// A request that the proposed client has not confirmed cannot be finalized, and
/// one that is too old can be neither confirmed nor finalized.
pub proof fn migration_needs_a_timely_confirmation(
    s: EscrowState,
    call: Invocation,
    contract_id: u32,
)
    requires
        s.client_migrations.contains_key(contract_id),
        !s.client_migrations[contract_id].proposed_client_confirmed
            || s.client_migrations[contract_id].expired(call),
    ensures
        s.finalize_refusal(call, contract_id) == state::refuse(
            EscrowError::InvalidStatusTransition,
        ),
        s.client_migrations[contract_id].expired(call) ==> s.confirm_refusal(call, contract_id)
            is Some,
{
}

/// While a request waits, no other one is accepted for the contract.
pub proof fn one_migration_at_a_time(
    s: EscrowState,
    call: Invocation,
    contract_id: u32,
    proposed: Address,
)
    requires
        s.client_migrations.contains_key(contract_id),
    ensures
        s.request_refusal(call, contract_id, proposed) is Some,
{
}

/// Withdrawing a request undoes it: but for the events, the state is what it was.
pub proof fn withdrawal_undoes_the_request(
    s: EscrowState,
    requested: Invocation,
    withdrawn: Invocation,
    contract_id: u32,
    proposed: Address,
)
    requires
        s.request_refusal(requested, contract_id, proposed) is None,
        withdrawn.covers(s.contracts[contract_id].client),
    ensures
        ({
            let s1 = s.after_request(requested, contract_id, proposed);
            let s2 = s1.after_withdraw(withdrawn, contract_id);
            &&& s1.withdraw_refusal(withdrawn, contract_id) is None
            &&& s2 == (EscrowState { events: s2.events, ..s })
        }),
{
    let s1 = s.after_request(requested, contract_id, proposed);
    let s2 = s1.after_withdraw(withdrawn, contract_id);
    assert(s2.client_migrations =~= s.client_migrations);
}

/// Only the finalization of a request changes the client of a contract.
pub proof fn client_changes_by_finalization_only(s: EscrowState, step: Step, contract_id: u32)
    requires
        s.wf(),
        s.contracts.contains_key(contract_id),
        !(step matches Step::FinalizeClientMigration { contract_id: id, .. } && id == contract_id),
    ensures
        s.take_step(step).contracts[contract_id].client == s.contracts[contract_id].client,
{
    if acts_on(step) != Some(contract_id) {
        step_touches_one_contract(s, step, contract_id);
    }
}

/// A proposed administrator who signs takes over exactly when the delay has gone
/// by; the proposal is then spent.
pub proof fn admin_rotation_waits(
    s: EscrowState,
    proposed: Invocation,
    accepted: Invocation,
    next: Address,
)
    requires
        s.admin_refusal(proposed) is None,
        accepted.covers(next),
        proposed.sequence <= accepted.sequence,
    ensures
        ({
            let s1 = s.after_propose_admin(proposed, next);
            let s2 = s1.after_accept_admin(accepted);
            &&& s1.accept_admin_refusal(accepted) is None <==> accepted.sequence
                >= proposed.sequence + s.policy.admin_rotation_min_delay_ledgers
            &&& s1.accept_admin_refusal(accepted) is Some ==> s1.accept_admin_refusal(accepted)
                == state::refuse(EscrowError::TimelockNotElapsed)
            &&& s2.admin == Some(next)
            &&& s2.accept_admin_refusal(accepted) == state::refuse(EscrowError::InvalidState)
        }),
{
}

/// Only the acceptance of a proposal changes the administrator.
pub proof fn admin_changes_by_acceptance_only(s: EscrowState, step: Step)
    requires
        !(step is AcceptGovernanceAdmin),
    ensures
        s.take_step(step).admin == s.admin,
{
}

/// No two errors leave the contract under one number.
pub proof fn error_codes_differ(a: EscrowError, b: EscrowError)
    ensures
        a.spec_code() == b.spec_code() ==> a == b,
{
}

impl EscrowState {
    /// The state after the milestones of a list were released one by one.
    pub open spec fn after_each_release(self, contract_id: u32, indices: Seq<u32>) -> EscrowState
        decreases indices.len(),
    {
        if indices.len() == 0 {
            self
        } else {
            self.after_each_release(contract_id, indices.drop_last()).after_release(
                contract_id,
                indices.last(),
            )
        }
    }
}

/// Releasing several milestones at once leaves the record and the milestones of
/// the contract as releasing them one by one does.
pub proof fn batch_equals_single_releases(s: EscrowState, contract_id: u32, indices: Seq<u32>)
    requires
        s.books_ok(contract_id),
        s.contracts.contains_key(contract_id),
        s.contracts[contract_id].status is Funded,
        indices.len() > 0,
        indices.no_duplicates(),
        release::milestones_refusal(s.milestones[contract_id], indices) is None,
        release::amount_of(s.milestones[contract_id], indices)
            <= s.contracts[contract_id].available(),
    ensures
        s.after_each_release(contract_id, indices).contracts == s.after_release_all(
            contract_id,
            indices,
        ).contracts,
        s.after_each_release(contract_id, indices).milestones == s.after_release_all(
            contract_id,
            indices,
        ).milestones,
    decreases indices.len(),
{
    let ms = s.milestones[contract_id];
    let rest = indices.drop_last();
    let last = indices.last();
    assert(rest.no_duplicates());
    accounts::lemma_bounded(ms);
    release::lemma_released_at(ms, rest);
    release::lemma_released_at(ms, indices);
    release::lemma_released_step(ms, indices);
    let each = s.after_each_release(contract_id, rest);
    let all = s.after_release_all(contract_id, indices);
    if rest.len() > 0 {
        batch_equals_single_releases(s, contract_id, rest);
        assert(!release::released_at(ms, rest)[last as int].settled());
    } else {
        assert(release::released_at(ms, rest) =~= ms);
    }
    assert(s.after_each_release(contract_id, indices).contracts =~= all.contracts);
    assert(s.after_each_release(contract_id, indices).milestones =~= all.milestones);
}

} // verus!
