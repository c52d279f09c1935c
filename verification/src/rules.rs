//! Who may do what, when, and what it changes: opening, funding, approving,
//! cancelling, handing over and governing a contract.
//!
//! The laws here speak of the fields of the records and of the call alone.  For
//! each entry point one says exactly when a call is accepted, one which reason
//! comes first when it is not, and one what an accepted call changes and that it
//! changes nothing else.

use soroban_sdk::Address;
use vstd::prelude::*;

use crate::accounts;
use crate::host;
use crate::lifecycle;
use crate::state;
use crate::state::{Escrow, EscrowState};
use crate::types::{
    ContractStatus, EscrowContractData, EscrowError, Event, Invocation, Milestone,
    PendingAdminProposal, PendingClientMigration, ReleaseAuthorization, Trap, BPS_DENOMINATOR,
    MAX_MILESTONES, MAX_TOTAL_ESCROW_STROOPS,
};

verus! {

/// A call carries the signature of an address exactly when the address is among
/// those that signed it.
pub proof fn signatures_are_those_given(call: Invocation, who: Address)
    ensures
        call.covers(who) <==> exists|i: int|
            0 <= i < call.authorized@.len() && #[trigger] call.authorized@[i] == who,
{
}

/// A refused call answers the trap, and one that is not refused its value.
pub proof fn answers_are_refusals_or_values<T>(refusal: Option<Trap>, value: T)
    ensures
        refusal is None ==> state::answer(refusal, value) == Ok::<T, Trap>(value),
        refusal matches Some(trap) ==> state::answer(refusal, value) == Err::<T, Trap>(trap),
{
}

/// The mathematical state shows every field of the stored one as it is.
pub proof fn the_state_shows_every_field(e: Escrow, id: u32)
    ensures
        e@ == (EscrowState {
            policy: e.policy,
            contract_count: e.contract_count,
            contracts: e.contracts@,
            milestones: e@.milestones,
            approval_times: e.approval_times@,
            client_migrations: e.client_migrations@,
            finalized: e.finalized@,
            reputation_credits: e.reputation_credits@,
            paused: e.paused,
            initialized: e.initialized,
            admin: e.admin,
            pending_admin: e.pending_admin,
            protocol_fee_bps: e.protocol_fee_bps,
            accumulated_protocol_fees: e.accumulated_protocol_fees,
            events: e.events@,
        }),
        e@.milestones.contains_key(id) <==> e.milestones@.contains_key(id),
        e.milestones@.contains_key(id) ==> e@.milestones[id] == e.milestones@[id]@,
{
}

/// Each milestone counts once in the sum of all, in the sum of those released if
/// it is released, and in the sum of those refunded if it is refunded.
pub proof fn sums_count_each_milestone_once(ms: Seq<Milestone>, m: Milestone)
    ensures
        accounts::total(Seq::empty()) == 0,
        accounts::released_total(Seq::empty()) == 0,
        accounts::refunded_total(Seq::empty()) == 0,
        accounts::total(ms.push(m)) == accounts::total(ms) + m.amount,
        m.released ==> accounts::released_total(ms.push(m)) == accounts::released_total(ms)
            + m.amount,
        !m.released ==> accounts::released_total(ms.push(m)) == accounts::released_total(ms),
        m.refunded ==> accounts::refunded_total(ms.push(m)) == accounts::refunded_total(ms)
            + m.amount,
        !m.refunded ==> accounts::refunded_total(ms.push(m)) == accounts::refunded_total(ms),
{
    assert(ms.push(m).drop_last() =~= ms);
}

/// All milestones are settled exactly when each is released or refunded.
pub proof fn settled_means_released_or_refunded(ms: Seq<Milestone>)
    ensures
        accounts::all_settled(ms) <==> forall|i: int|
            0 <= i < ms.len() ==> (#[trigger] ms[i]).released || ms[i].refunded,
{
    if accounts::all_settled(ms) {
        assert forall|i: int| 0 <= i < ms.len() implies (#[trigger] ms[i]).released
            || ms[i].refunded by {
            assert(ms[i].settled());
        }
    }
}

/// Each amount of a list counts once in its sum.
pub proof fn amounts_add_up(items: Seq<Option<i128>>, amount: i128)
    ensures
        lifecycle::amounts_total(Seq::empty()) == 0,
        lifecycle::amounts_total(items.push(Some(amount))) == lifecycle::amounts_total(items)
            + amount,
{
    assert(items.push(Some(amount)).drop_last() =~= items);
}

/// A fee is the largest whole number that does not exceed its share of the
/// amount.
pub proof fn fees_are_rounded_down(amount: int, bps: int)
    ensures
        accounts::protocol_fee(amount, bps) * 10_000 <= amount * bps,
        amount * bps < accounts::protocol_fee(amount, bps) * 10_000 + 10_000,
        BPS_DENOMINATOR == 10_000,
{
}

/// Where a fee was set it is that one, and otherwise there is none.
pub proof fn the_fee_is_the_one_set(s: EscrowState, bps: u32)
    ensures
        s.protocol_fee_bps == Some(bps) ==> s.fee_bps() == bps,
        s.protocol_fee_bps is None ==> s.fee_bps() == 0,
{
}

/// What it means that the books of a contract balance.  There are between one
/// and the allowed number of milestones, listed in the record; each is worth
/// something, together they keep the cap, and none is both released and
/// refunded.  The record agrees with them on what was released and what was
/// refunded, and what was paid in lies between what was paid out and what they
/// are worth.
pub proof fn balanced_books_mean_this(s: EscrowState, id: u32)
    requires
        s.contracts.contains_key(id),
    ensures
        s.books_ok(id) <==> {
            let data = s.contracts[id];
            let ms = s.milestones[id];
            let listed = host::amounts_in(data.milestones);
            &&& s.milestones.contains_key(id)
            &&& 1 <= ms.len() <= MAX_MILESTONES
            &&& forall|i: int| 0 <= i < ms.len() ==> (#[trigger] ms[i]).amount > 0
            &&& forall|i: int|
                0 <= i < ms.len() ==> !((#[trigger] ms[i]).released && ms[i].refunded)
            &&& accounts::total(ms) <= MAX_TOTAL_ESCROW_STROOPS
            &&& listed.len() == ms.len()
            &&& forall|i: int| 0 <= i < ms.len() ==> listed[i] == Some((#[trigger] ms[i]).amount)
            &&& data.released_amount == accounts::released_total(ms)
            &&& data.refunded_amount == accounts::refunded_total(ms)
            &&& data.released_amount + data.refunded_amount <= data.total_deposited
            &&& data.total_deposited <= accounts::total(ms)
            &&& data.status == ContractStatus::Created ==> data.total_deposited == 0
            &&& data.status == ContractStatus::Completed ==> forall|i: int|
                0 <= i < ms.len() ==> (#[trigger] ms[i]).released || ms[i].refunded
        },
{
    let data = s.contracts[id];
    let ms = s.milestones[id];
    let listed = host::amounts_in(data.milestones);
    if s.books_ok(id) {
        assert forall|i: int| 0 <= i < ms.len() implies listed[i] == Some(
            (#[trigger] ms[i]).amount,
        ) by {
            assert(accounts::listed(ms)[i] == Some(ms[i].amount));
        }
        if data.status == ContractStatus::Completed {
            assert forall|i: int| 0 <= i < ms.len() implies (#[trigger] ms[i]).released
                || ms[i].refunded by {
                assert(ms[i].settled());
            }
        }
    }
    if listed.len() == ms.len() && forall|i: int|
        0 <= i < ms.len() ==> listed[i] == Some((#[trigger] ms[i]).amount) {
        assert(listed =~= accounts::listed(ms));
    }
}

/// The stored state keeps its invariant exactly when there is a record under
/// every number that was given out and under no other, and all books balance.
pub proof fn the_invariant_means_this(s: EscrowState)
    ensures
        s.wf() <==> {
            &&& forall|id: u32|
                id < s.contract_count ==> #[trigger] s.contracts.contains_key(id)
            &&& forall|id: u32|
                #[trigger] s.contracts.contains_key(id) ==> id < s.contract_count && s.books_ok(id)
        },
{
    if s.wf() {
        assert forall|id: u32| #[trigger] s.contracts.contains_key(id) implies s.books_ok(id) by {
            assert(s.books_ok(id));
        }
    }
}

proof fn lemma_no_fault(items: Seq<Option<i128>>)
    requires
        forall|i: int| 0 <= i < items.len() ==> (#[trigger] items[i]) is Some && items[i]->0 > 0,
    ensures
        lifecycle::amounts_fault(items) is None,
    decreases items.len(),
{
    if items.len() > 0 {
        let rest = items.drop_last();
        assert forall|i: int| 0 <= i < rest.len() implies (#[trigger] rest[i]) is Some
            && rest[i]->0 > 0 by {
            assert(rest[i] == items[i]);
        }
        lemma_no_fault(rest);
        assert(items[items.len() - 1] is Some);
    }
}

proof fn lemma_first_fault(items: Seq<Option<i128>>, k: int)
    requires
        0 <= k < items.len(),
        forall|i: int| 0 <= i < k ==> (#[trigger] items[i]) is Some && items[i]->0 > 0,
        items[k] is None || items[k]->0 <= 0,
    ensures
        lifecycle::amounts_fault(items) == if items[k] is None {
            Some(Trap::Conversion)
        } else {
            Some(Trap::Error(EscrowError::InvalidMilestoneAmount))
        },
    decreases items.len(),
{
    let rest = items.drop_last();
    assert forall|i: int| 0 <= i < k implies (#[trigger] rest[i]) is Some && rest[i]->0 > 0 by {
        assert(rest[i] == items[i]);
    }
    if k < items.len() - 1 {
        lemma_first_fault(rest, k);
    } else {
        lemma_no_fault(rest);
    }
}

/// A contract opens exactly when the client signs, the client, the freelancer and
/// the arbiter are different addresses, and the milestones are positive amounts
/// within the bounds.
pub proof fn opening_is_accepted_exactly_when(
    call: Invocation,
    client: Address,
    freelancer: Address,
    arbiter: Option<Address>,
    items: Seq<Option<i128>>,
)
    ensures
        lifecycle::opening_refusal(call, client, freelancer, arbiter, items) is None <==> {
            &&& call.authorized@.contains(client)
            &&& client != freelancer
            &&& arbiter != Some(client)
            &&& arbiter != Some(freelancer)
            &&& 1 <= items.len() <= MAX_MILESTONES
            &&& forall|i: int|
                0 <= i < items.len() ==> (#[trigger] items[i]) is Some && items[i]->0 > 0
            &&& lifecycle::amounts_total(items) <= MAX_TOTAL_ESCROW_STROOPS
        },
{
    if lifecycle::amounts_fault(items) is None {
        lifecycle::lemma_fresh(items);
    } else if forall|i: int|
        0 <= i < items.len() ==> (#[trigger] items[i]) is Some && items[i]->0 > 0 {
        lemma_no_fault(items);
    }
}

/// The reasons against an opening, in their order: no signature, two roles in one
/// hand, no milestones, too many, the first item `k` that is not a positive
/// amount, and too large a sum.
pub proof fn opening_is_refused_for(
    call: Invocation,
    client: Address,
    freelancer: Address,
    arbiter: Option<Address>,
    items: Seq<Option<i128>>,
    k: int,
)
    ensures
        ({
            let refusal = lifecycle::opening_refusal(call, client, freelancer, arbiter, items);
            let signed = call.authorized@.contains(client);
            let apart = client != freelancer && arbiter != Some(client) && arbiter != Some(
                freelancer,
            );
            let fits = 1 <= items.len() <= MAX_MILESTONES;
            &&& !signed ==> refusal == Some(Trap::Unauthorized(client))
            &&& signed && !apart ==> refusal == Some(Trap::Error(EscrowError::InvalidParticipant))
            &&& signed && apart && items.len() == 0 ==> refusal == Some(
                Trap::Error(EscrowError::EmptyMilestones),
            )
            &&& signed && apart && items.len() > MAX_MILESTONES ==> refusal == Some(
                Trap::Error(EscrowError::TooManyMilestones),
            )
            &&& signed && apart && fits && 0 <= k < items.len() && (forall|i: int|
                0 <= i < k ==> (#[trigger] items[i]) is Some && items[i]->0 > 0) ==> {
                &&& items[k] is None ==> refusal == Some(Trap::Conversion)
                &&& items[k] matches Some(amount) ==> amount <= 0 ==> refusal == Some(
                    Trap::Error(EscrowError::InvalidMilestoneAmount),
                )
            }
            &&& signed && apart && fits && (forall|i: int|
                0 <= i < items.len() ==> (#[trigger] items[i]) is Some && items[i]->0 > 0)
                && lifecycle::amounts_total(items) > MAX_TOTAL_ESCROW_STROOPS ==> refusal == Some(
                Trap::Error(EscrowError::TotalEscrowTooLarge),
            )
        }),
{
    if 0 <= k < items.len() && (forall|i: int|
        0 <= i < k ==> (#[trigger] items[i]) is Some && items[i]->0 > 0) && (items[k] is None
        || items[k]->0 <= 0) {
        lemma_first_fault(items, k);
    }
    if forall|i: int| 0 <= i < items.len() ==> (#[trigger] items[i]) is Some && items[i]->0 > 0 {
        lemma_no_fault(items);
    }
}

/// A contract that opens is stored under the next number, with the parties, the
/// list and the window that were given, empty and unpaid, for the client alone to
/// release; its milestones have the amounts of the list, and none is settled.
/// Nothing else changes.
pub proof fn opening_stores_what_was_given(
    s: EscrowState,
    client: Address,
    freelancer: Address,
    arbiter: Option<Address>,
    milestones: soroban_sdk::Vec<i128>,
    window: Option<u64>,
)
    requires
        s.contract_count < u32::MAX,
    ensures
        ({
            let after = s.after_create(
                lifecycle::opening_record(client, freelancer, arbiter, milestones, window),
            );
            let id = s.contract_count;
            let items = host::amounts_in(milestones);
            let ms = after.milestones[id];
            &&& after == (EscrowState {
                contract_count: after.contract_count,
                contracts: s.contracts.insert(
                    id,
                    EscrowContractData {
                        client,
                        freelancer,
                        arbiter,
                        milestones,
                        status: ContractStatus::Created,
                        total_deposited: 0,
                        released_amount: 0,
                        refunded_amount: 0,
                        release_authorization: ReleaseAuthorization::ClientOnly,
                        approval_expiry_seconds: window,
                    },
                ),
                milestones: s.milestones.insert(id, ms),
                ..s
            })
            &&& after.contract_count == s.contract_count + 1
            &&& ms.len() == items.len()
            &&& forall|i: int|
                0 <= i < items.len() && items[i] is Some ==> #[trigger] ms[i] == (Milestone {
                    amount: items[i]->0,
                    released: false,
                    refunded: false,
                })
        }),
{
}

/// A deposit is accepted exactly when it is positive, the contract exists, and
/// what was paid in stays within what its milestones are worth.
pub proof fn deposit_is_accepted_exactly_when(s: EscrowState, id: u32, amount: i128)
    ensures
        s.deposit_refusal(id, amount) is None <==> {
            &&& amount > 0
            &&& s.contracts.contains_key(id)
            &&& s.contracts[id].total_deposited + amount <= accounts::total(s.milestones[id])
        },
        amount <= 0 ==> s.deposit_refusal(id, amount) == Some(
            Trap::Error(EscrowError::InvalidDepositAmount),
        ),
        amount > 0 && !s.contracts.contains_key(id) ==> s.deposit_refusal(id, amount) == Some(
            Trap::Error(EscrowError::ContractNotFound),
        ),
        amount > 0 && s.contracts.contains_key(id) && s.contracts[id].total_deposited + amount
            > accounts::total(s.milestones[id]) ==> s.deposit_refusal(id, amount) == Some(
            Trap::Error(EscrowError::InvalidDepositAmount),
        ),
{
}

/// An accepted deposit adds its amount to what was paid in, turns a created
/// contract into a funded one, leaves any other status alone, and changes nothing
/// else.
pub proof fn deposit_adds_its_amount(s: EscrowState, id: u32, amount: i128)
    requires
        s.books_ok(id),
        s.deposit_refusal(id, amount) is None,
    ensures
        ({
            let before = s.contracts[id];
            let after = s.after_deposit(id, amount);
            let data = after.contracts[id];
            &&& data.total_deposited == before.total_deposited + amount
            &&& before.status == ContractStatus::Created ==> data.status == ContractStatus::Funded
            &&& before.status != ContractStatus::Created ==> data.status == before.status
            &&& data == (EscrowContractData {
                total_deposited: data.total_deposited,
                status: data.status,
                ..before
            })
            &&& after == (EscrowState { contracts: s.contracts.insert(id, data), ..s })
        }),
{
    accounts::lemma_bounded(s.milestones[id]);
}

/// An approval notes the time of the call for its milestone, and changes nothing
/// else.
pub proof fn approval_notes_the_time(s: EscrowState, id: u32, index: u32, now: u64)
    ensures
        ({
            let after = s.after_approve(id, index, now);
            &&& after.approval_times.contains_key((id, index))
            &&& after.approval_times[(id, index)] == now
            &&& after == (EscrowState {
                approval_times: s.approval_times.insert((id, index), now),
                ..s
            })
        }),
{
}

/// Who can cancel a contract, on the fields of its record.  The caller signs.
/// Before it is funded the client and the freelancer can; once it is funded the
/// client as long as nothing was released, and the freelancer and the arbiter
/// whatever was released; in a dispute the arbiter; and otherwise nobody.
pub proof fn cancellation_is_accepted_exactly_when(
    s: EscrowState,
    call: Invocation,
    id: u32,
    caller: Address,
)
    ensures
        s.cancel_refusal(call, id, caller) is None <==> {
            let data = s.contracts[id];
            &&& call.authorized@.contains(caller)
            &&& s.contracts.contains_key(id)
            &&& {
                ||| data.status == ContractStatus::Created && (caller == data.client || caller
                    == data.freelancer)
                ||| data.status == ContractStatus::Funded && caller == data.client
                    && accounts::released_total(s.milestones[id]) <= 0
                ||| data.status == ContractStatus::Funded && caller != data.client && caller
                    == data.freelancer
                ||| data.status == ContractStatus::Funded && caller != data.client && data.arbiter
                    == Some(caller)
                ||| data.status == ContractStatus::Disputed && data.arbiter == Some(caller)
            }
        },
{
}

/// The reasons against a cancellation, in their order.
pub proof fn cancellation_is_refused_for(
    s: EscrowState,
    call: Invocation,
    id: u32,
    caller: Address,
)
    ensures
        ({
            let refusal = s.cancel_refusal(call, id, caller);
            let data = s.contracts[id];
            let signed = call.authorized@.contains(caller);
            let found = signed && s.contracts.contains_key(id);
            let party = caller == data.client || caller == data.freelancer;
            &&& !signed ==> refusal == Some(Trap::Unauthorized(caller))
            &&& signed && !found ==> refusal == Some(Trap::Error(EscrowError::ContractNotFound))
            &&& found && data.status == ContractStatus::Cancelled ==> refusal == Some(
                Trap::Error(EscrowError::AlreadyCancelled),
            )
            &&& found && (data.status == ContractStatus::Completed || data.status
                == ContractStatus::Refunded) ==> refusal == Some(
                Trap::Error(EscrowError::InvalidStatusTransition),
            )
            &&& found && data.status == ContractStatus::Created && !party ==> refusal == Some(
                Trap::Error(EscrowError::UnauthorizedRole),
            )
            &&& found && data.status == ContractStatus::Funded && caller == data.client
                && accounts::released_total(s.milestones[id]) > 0 ==> refusal == Some(
                Trap::Error(EscrowError::MilestonesAlreadyReleased),
            )
            &&& found && data.status == ContractStatus::Funded && !party && data.arbiter != Some(
                caller,
            ) ==> refusal == Some(Trap::Error(EscrowError::UnauthorizedRole))
            &&& found && data.status == ContractStatus::Disputed && data.arbiter != Some(caller)
                ==> refusal == Some(Trap::Error(EscrowError::UnauthorizedRole))
        }),
{
}

/// An accepted cancellation turns the status to cancelled and announces it; the
/// money, the parties and everything else stay as they were.
pub proof fn cancellation_changes_the_status_alone(
    s: EscrowState,
    call: Invocation,
    id: u32,
    caller: Address,
)
    ensures
        s.after_cancel(call, id, caller) == (EscrowState {
            contracts: s.contracts.insert(
                id,
                EscrowContractData { status: ContractStatus::Cancelled, ..s.contracts[id] },
            ),
            events: s.events.push(
                Event::ContractCancelled {
                    contract_id: id,
                    caller,
                    status: ContractStatus::Cancelled,
                    timestamp: call.timestamp,
                },
            ),
            ..s
        }),
{
}

/// The client can change as long as the contract is created or funded.
pub proof fn statuses_that_allow_a_migration(status: ContractStatus)
    ensures
        status.allows_migration() <==> status == ContractStatus::Created || status
            == ContractStatus::Funded,
{
}

/// A change of client can be asked for exactly when the proposed and the current
/// client both sign, are different, the contract is created or funded, and no
/// other request waits.
pub proof fn request_is_accepted_exactly_when(
    s: EscrowState,
    call: Invocation,
    id: u32,
    proposed: Address,
)
    ensures
        s.request_refusal(call, id, proposed) is None <==> {
            let data = s.contracts[id];
            &&& call.authorized@.contains(proposed)
            &&& s.contracts.contains_key(id)
            &&& call.authorized@.contains(data.client)
            &&& data.status == ContractStatus::Created || data.status == ContractStatus::Funded
            &&& !s.client_migrations.contains_key(id)
            &&& data.client != proposed
        },
{
}

/// The reasons against a request, in their order.
pub proof fn request_is_refused_for(s: EscrowState, call: Invocation, id: u32, proposed: Address)
    ensures
        ({
            let refusal = s.request_refusal(call, id, proposed);
            let data = s.contracts[id];
            let cosigned = call.authorized@.contains(proposed);
            let found = cosigned && s.contracts.contains_key(id);
            let signed = found && call.authorized@.contains(data.client);
            let open = signed && (data.status == ContractStatus::Created || data.status
                == ContractStatus::Funded);
            let free = open && !s.client_migrations.contains_key(id);
            &&& !cosigned ==> refusal == Some(Trap::Unauthorized(proposed))
            &&& cosigned && !found ==> refusal == Some(Trap::Error(EscrowError::ContractNotFound))
            &&& found && !signed ==> refusal == Some(Trap::Unauthorized(data.client))
            &&& signed && !open ==> refusal == Some(
                Trap::Error(EscrowError::InvalidStatusTransition),
            )
            &&& open && !free ==> refusal == Some(Trap::Error(EscrowError::AlreadyCancelled))
            &&& free && data.client == proposed ==> refusal == Some(
                Trap::Error(EscrowError::InvalidParticipant),
            )
        }),
{
}

/// An accepted request waits, unconfirmed, between the current and the proposed
/// client from this ledger until the delay of the policy has gone by, and is
/// announced.  Nothing else changes, the client least of all.
pub proof fn request_waits_for_its_delay(
    s: EscrowState,
    call: Invocation,
    id: u32,
    proposed: Address,
)
    requires
        call.sequence + s.policy.pending_migration_ttl_ledgers <= u32::MAX,
    ensures
        ({
            let after = s.after_request(call, id, proposed);
            let pending = after.client_migrations[id];
            &&& after.client_migrations.contains_key(id)
            &&& pending.expires_at_ledger == call.sequence + s.policy.pending_migration_ttl_ledgers
            &&& pending == (PendingClientMigration {
                current_client: s.contracts[id].client,
                proposed_client: proposed,
                proposed_client_confirmed: false,
                requested_at_ledger: call.sequence,
                expires_at_ledger: pending.expires_at_ledger,
            })
            &&& after == (EscrowState {
                client_migrations: s.client_migrations.insert(id, pending),
                events: s.events.push(
                    Event::ClientMigrationProposed {
                        contract_id: id,
                        current_client: s.contracts[id].client,
                        proposed_client: proposed,
                        ledger: call.sequence,
                    },
                ),
                ..s
            })
        }),
{
}

/// A request is confirmed exactly when it waits, the proposed client signs, and
/// its last ledger has not gone by.
pub proof fn confirmation_is_accepted_exactly_when(s: EscrowState, call: Invocation, id: u32)
    ensures
        ({
            let refusal = s.confirm_refusal(call, id);
            let pending = s.client_migrations[id];
            let waits = s.client_migrations.contains_key(id);
            let signed = waits && call.authorized@.contains(pending.proposed_client);
            &&& refusal is None <==> signed && call.sequence <= pending.expires_at_ledger
            &&& !waits ==> refusal == Some(Trap::Error(EscrowError::ContractNotFound))
            &&& waits && !signed ==> refusal == Some(Trap::Unauthorized(pending.proposed_client))
            &&& signed && call.sequence > pending.expires_at_ledger ==> refusal == Some(
                Trap::Error(EscrowError::InvalidStatusTransition),
            )
        }),
{
}

/// A confirmation marks the request as confirmed, announces it, and changes
/// nothing else.
pub proof fn confirmation_marks_the_request(s: EscrowState, call: Invocation, id: u32)
    ensures
        ({
            let pending = s.client_migrations[id];
            s.after_confirm(call, id) == (EscrowState {
                client_migrations: s.client_migrations.insert(
                    id,
                    PendingClientMigration { proposed_client_confirmed: true, ..pending },
                ),
                events: s.events.push(
                    Event::ClientMigrationConfirmed {
                        contract_id: id,
                        current_client: pending.current_client,
                        proposed_client: pending.proposed_client,
                        ledger: call.sequence,
                    },
                ),
                ..s
            })
        }),
{
}

/// A request is finalized exactly when it waits, is confirmed, its last ledger
/// has not gone by, and the contract exists; whoever calls, and whatever the
/// status.
pub proof fn finalization_is_accepted_exactly_when(s: EscrowState, call: Invocation, id: u32)
    ensures
        ({
            let refusal = s.finalize_refusal(call, id);
            let pending = s.client_migrations[id];
            let waits = s.client_migrations.contains_key(id);
            let ready = waits && pending.proposed_client_confirmed && call.sequence
                <= pending.expires_at_ledger;
            &&& refusal is None <==> ready && s.contracts.contains_key(id)
            &&& !waits ==> refusal == Some(Trap::Error(EscrowError::ContractNotFound))
            &&& waits && !ready ==> refusal == Some(
                Trap::Error(EscrowError::InvalidStatusTransition),
            )
            &&& ready && !s.contracts.contains_key(id) ==> refusal == Some(
                Trap::Error(EscrowError::ContractNotFound),
            )
        }),
{
}

/// Once a request is finalized its proposed client is the client, in every
/// status; every other field of the record is what it was, the request is gone,
/// the change is announced, and nothing else changes.
pub proof fn finalization_makes_the_proposed_client_the_client(
    s: EscrowState,
    call: Invocation,
    id: u32,
)
    ensures
        ({
            let pending = s.client_migrations[id];
            let before = s.contracts[id];
            let after = s.after_finalize(call, id);
            let data = after.contracts[id];
            &&& data.client == pending.proposed_client
            &&& data == (EscrowContractData { client: pending.proposed_client, ..before })
            &&& !after.client_migrations.contains_key(id)
            &&& after == (EscrowState {
                contracts: s.contracts.insert(id, data),
                client_migrations: s.client_migrations.remove(id),
                events: s.events.push(
                    Event::ClientMigrationFinalized {
                        contract_id: id,
                        current_client: pending.current_client,
                        proposed_client: pending.proposed_client,
                        ledger: call.sequence,
                    },
                ),
                ..s
            })
        }),
{
}

/// A request is withdrawn exactly when it waits and the client who made it signs;
/// it is then gone, which is announced, and nothing else changes.
pub proof fn withdrawal_removes_the_request(s: EscrowState, call: Invocation, id: u32)
    ensures
        ({
            let refusal = s.withdraw_refusal(call, id);
            let pending = s.client_migrations[id];
            let waits = s.client_migrations.contains_key(id);
            let signed = call.authorized@.contains(pending.current_client);
            &&& refusal is None <==> waits && signed
            &&& !waits ==> refusal == Some(Trap::Error(EscrowError::ContractNotFound))
            &&& waits && !signed ==> refusal == Some(Trap::Unauthorized(pending.current_client))
            &&& s.after_withdraw(call, id) == (EscrowState {
                client_migrations: s.client_migrations.remove(id),
                events: s.events.push(
                    Event::ClientMigrationCancelled {
                        contract_id: id,
                        current_client: pending.current_client,
                        proposed_client: pending.proposed_client,
                        ledger: call.sequence,
                    },
                ),
                ..s
            })
        }),
{
}

/// What is left to the administrator is done exactly when the protocol is
/// initialized, there is an administrator, and they sign.
pub proof fn administration_is_accepted_exactly_when(s: EscrowState, call: Invocation)
    ensures
        s.admin_refusal(call) is None <==> {
            &&& s.initialized
            &&& s.admin is Some
            &&& call.authorized@.contains(s.admin->0)
        },
        !s.initialized || s.admin is None ==> s.admin_refusal(call) == Some(
            Trap::Error(EscrowError::NotInitialized),
        ),
        s.initialized && s.admin is Some && !call.authorized@.contains(s.admin->0)
            ==> s.admin_refusal(call) == Some(Trap::Unauthorized(s.admin->0)),
{
}

/// Setting the fee stores the new one and announces it with the one before, which
/// is nothing where none was set; nothing else changes.
pub proof fn setting_the_fee_stores_it(s: EscrowState, call: Invocation, new_bps: u32)
    requires
        s.admin is Some,
    ensures
        ({
            let old_bps: u32 = match s.protocol_fee_bps {
                Some(bps) => bps,
                None => 0,
            };
            s.after_set_fee(call, new_bps) == (EscrowState {
                protocol_fee_bps: Some(new_bps),
                events: s.events.push(
                    Event::ProtocolFeeBps {
                        old_bps,
                        new_bps,
                        admin: s.admin->0,
                        timestamp: call.timestamp,
                    },
                ),
                ..s
            })
        }),
{
}

/// A proposal of an administrator replaces any earlier one, counts from this
/// ledger, and is announced; the administrator stays, and nothing else changes.
pub proof fn proposing_an_admin_stores_the_proposal(
    s: EscrowState,
    call: Invocation,
    proposed: Address,
)
    requires
        s.admin is Some,
    ensures
        s.after_propose_admin(call, proposed) == (EscrowState {
            pending_admin: Some(
                PendingAdminProposal { proposed, proposed_at_ledger: call.sequence },
            ),
            events: s.events.push(
                Event::AdminProposed { admin: s.admin->0, proposed, timestamp: call.timestamp },
            ),
            ..s
        }),
{
}

/// The proposed administrator takes over exactly when the protocol is
/// initialized, the delay has gone by since the proposal, they sign, and there is
/// an administrator to follow.  A ledger before the proposal counts as no delay.
pub proof fn acceptance_is_accepted_exactly_when(s: EscrowState, call: Invocation)
    ensures
        ({
            let refusal = s.accept_admin_refusal(call);
            let proposal = s.pending_admin->0;
            let delay = s.policy.admin_rotation_min_delay_ledgers;
            let waits = s.initialized && s.pending_admin is Some;
            let due = waits && (delay == 0 || call.sequence >= proposal.proposed_at_ledger + delay);
            let signed = due && call.authorized@.contains(proposal.proposed);
            &&& refusal is None <==> signed && s.admin is Some
            &&& !s.initialized ==> refusal == Some(Trap::Error(EscrowError::NotInitialized))
            &&& s.initialized && !waits ==> refusal == Some(Trap::Error(EscrowError::InvalidState))
            &&& waits && !due ==> refusal == Some(Trap::Error(EscrowError::TimelockNotElapsed))
            &&& due && !signed ==> refusal == Some(Trap::Unauthorized(proposal.proposed))
            &&& signed && s.admin is None ==> refusal == Some(
                Trap::Error(EscrowError::NotInitialized),
            )
        }),
{
}

/// Once they take over, the proposed administrator is the administrator, the
/// proposal is gone, the change is announced, and nothing else changes.
pub proof fn acceptance_makes_the_proposed_admin_the_admin(s: EscrowState, call: Invocation)
    requires
        s.accept_admin_refusal(call) is None,
    ensures
        s.after_accept_admin(call) == (EscrowState {
            admin: Some(s.pending_admin->0.proposed),
            pending_admin: None,
            events: s.events.push(
                Event::AdminAccepted {
                    old_admin: s.admin->0,
                    new_admin: s.pending_admin->0.proposed,
                    timestamp: call.timestamp,
                },
            ),
            ..s
        }),
{
}

} // verus!
