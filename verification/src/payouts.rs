//! When money leaves a contract, and what that changes: releases of one
//! milestone, on behalf of a caller or not, and of several at once.
//!
//! The laws here speak of the fields of the records and of the call alone.

use soroban_sdk::Address;
use vstd::prelude::*;

use crate::accounts;
use crate::laws;
use crate::release;
use crate::state::EscrowState;
use crate::types::{
    ContractStatus, EscrowContractData, EscrowError, Event, Invocation, Milestone,
    ReleaseAuthorization, Trap,
};

verus! {

/// A milestone is released exactly when its contract is funded, it is there and
/// open, its last approval, if it has one, is no older than the window of the
/// contract, if it has one, and the money in the contract covers it.  All this
/// holds of every milestone alike.
pub proof fn release_is_accepted_exactly_when(s: EscrowState, id: u32, index: u32, now: u64)
    ensures
        s.release_refusal(id, index, now) is None <==> {
            let data = s.contracts[id];
            let ms = s.milestones[id];
            &&& s.contracts.contains_key(id)
            &&& data.status == ContractStatus::Funded
            &&& index < ms.len()
            &&& !ms[index as int].released
            &&& !ms[index as int].refunded
            &&& s.approval_times.contains_key((id, index)) ==> {
                data.approval_expiry_seconds matches Some(window) ==> now <= s.approval_times[(
                    id,
                    index,
                )] + window
            }
            &&& ms[index as int].amount <= data.total_deposited - data.released_amount
                - data.refunded_amount
        },
{
}

/// The reasons against a release, in their order.
pub proof fn release_is_refused_for(s: EscrowState, id: u32, index: u32, now: u64)
    ensures
        ({
            let refusal = s.release_refusal(id, index, now);
            let data = s.contracts[id];
            let ms = s.milestones[id];
            let found = s.contracts.contains_key(id);
            let funded = found && data.status == ContractStatus::Funded;
            let there = funded && index < ms.len();
            let unreleased = there && !ms[index as int].released;
            let open = unreleased && !ms[index as int].refunded;
            let late = s.approval_times.contains_key((id, index)) && (
            data.approval_expiry_seconds matches Some(window) && now > s.approval_times[(
                id,
                index,
            )] + window);
            &&& !found ==> refusal == Some(Trap::Error(EscrowError::ContractNotFound))
            &&& found && !funded ==> refusal == Some(Trap::Error(EscrowError::InvalidState))
            &&& funded && !there ==> refusal == Some(Trap::Error(EscrowError::IndexOutOfBounds))
            &&& there && !unreleased ==> refusal == Some(
                Trap::Error(EscrowError::MilestoneAlreadyReleased),
            )
            &&& unreleased && !open ==> refusal == Some(Trap::Error(EscrowError::AlreadyRefunded))
            &&& open && late ==> refusal == Some(Trap::Error(EscrowError::ApprovalExpired))
            &&& open && !late && ms[index as int].amount > data.total_deposited
                - data.released_amount - data.refunded_amount ==> refusal == Some(
                Trap::Error(EscrowError::InsufficientFunds),
            )
        }),
{
}

/// For every milestone of every contract, an approval that is older than the
/// window of the contract lets nobody release, by whichever way.
pub proof fn a_late_approval_releases_nothing(
    s: EscrowState,
    call: Invocation,
    id: u32,
    caller: Address,
    items: Seq<Option<u32>>,
    k: int,
    window: u64,
)
    requires
        0 <= k < items.len(),
        items[k] is Some,
        s.contracts[id].approval_expiry_seconds == Some(window),
        s.approval_times.contains_key((id, items[k]->0)),
        call.timestamp > s.approval_times[(id, items[k]->0)] + window,
    ensures
        s.release_refusal(id, items[k]->0, call.timestamp) is Some,
        s.release_by_refusal(call, id, caller, items[k]->0) is Some,
        s.release_all_refusal(call, id, caller, items) is Some,
{
    laws::release_needs_every_approval(s, call, id, caller, items, k);
}

/// The release of an open milestone that the money in the contract covers marks
/// this milestone, and no other, as released, and adds its amount to what was
/// released.  The contract is completed exactly if no milestone is then left
/// open.  Nothing else changes.
pub proof fn release_moves_one_milestone(s: EscrowState, id: u32, index: u32)
    requires
        s.contracts.contains_key(id),
        s.books_ok(id),
        index < s.milestones[id].len(),
        !s.milestones[id][index as int].released,
        !s.milestones[id][index as int].refunded,
        s.milestones[id][index as int].amount <= s.contracts[id].total_deposited
            - s.contracts[id].released_amount - s.contracts[id].refunded_amount,
    ensures
        ({
            let before = s.contracts[id];
            let ms = s.milestones[id];
            let after = s.after_release(id, index);
            let data = after.contracts[id];
            let now = after.milestones[id];
            &&& now.len() == ms.len()
            &&& now[index as int] == (Milestone {
                amount: ms[index as int].amount,
                released: true,
                refunded: false,
            })
            &&& forall|j: int| 0 <= j < ms.len() && j != index ==> #[trigger] now[j] == ms[j]
            &&& data.released_amount == before.released_amount + ms[index as int].amount
            &&& (forall|j: int|
                0 <= j < now.len() ==> (#[trigger] now[j]).released || now[j].refunded)
                ==> data.status == ContractStatus::Completed
            &&& (exists|j: int|
                0 <= j < now.len() && !(#[trigger] now[j]).released && !now[j].refunded)
                ==> data.status == before.status
            &&& data == (EscrowContractData {
                released_amount: data.released_amount,
                status: data.status,
                ..before
            })
            &&& after == (EscrowState {
                contracts: s.contracts.insert(id, data),
                milestones: s.milestones.insert(id, now),
                ..s
            })
        }),
{
    let ms = s.milestones[id];
    let now = s.after_release(id, index).milestones[id];
    accounts::lemma_bounded(ms);
    lemma_settled(now);
}

/// Whether all milestones are settled, on their fields.
proof fn lemma_settled(ms: Seq<Milestone>)
    ensures
        (forall|j: int| 0 <= j < ms.len() ==> (#[trigger] ms[j]).released || ms[j].refunded)
            ==> accounts::all_settled(ms),
        (exists|j: int| 0 <= j < ms.len() && !(#[trigger] ms[j]).released && !ms[j].refunded)
            ==> !accounts::all_settled(ms),
{
    if exists|j: int| 0 <= j < ms.len() && !(#[trigger] ms[j]).released && !ms[j].refunded {
        let j = choose|j: int|
            0 <= j < ms.len() && !(#[trigger] ms[j]).released && !ms[j].refunded;
        assert(!ms[j].settled());
    }
}

/// A caller releases a milestone exactly when nothing is paused, they sign, the
/// contract is not finalized, is there and funded, gives them the role, the
/// milestone is there and open, it is approved and the approval is no older than
/// the window, and the money in the contract covers it.  The role is the
/// client's, the arbiter's, either's, or either party's, as the contract says,
/// with or without an arbiter.
pub proof fn release_by_is_accepted_exactly_when(
    s: EscrowState,
    call: Invocation,
    id: u32,
    caller: Address,
    index: u32,
)
    ensures
        s.release_by_refusal(call, id, caller, index) is None <==> {
            let data = s.contracts[id];
            let ms = s.milestones[id];
            &&& !s.paused
            &&& call.authorized@.contains(caller)
            &&& !(s.finalized.contains_key(id) && s.finalized[id])
            &&& s.contracts.contains_key(id)
            &&& data.status == ContractStatus::Funded
            &&& data.release_authorization == ReleaseAuthorization::ClientOnly ==> caller
                == data.client
            &&& data.release_authorization == ReleaseAuthorization::ArbiterOnly ==> data.arbiter
                == Some(caller)
            &&& data.release_authorization == ReleaseAuthorization::ClientAndArbiter ==> (caller
                == data.client || data.arbiter == Some(caller))
            &&& data.release_authorization == ReleaseAuthorization::MultiSig ==> (caller
                == data.client || caller == data.freelancer)
            &&& index < ms.len()
            &&& !ms[index as int].released
            &&& !ms[index as int].refunded
            &&& s.approval_times.contains_key((id, index))
            &&& data.approval_expiry_seconds matches Some(window) ==> call.timestamp
                <= s.approval_times[(id, index)] + window
            &&& ms[index as int].amount <= data.total_deposited - data.released_amount
                - data.refunded_amount
        },
{
}

/// The reasons against a release on behalf of a caller, in their order.
pub proof fn release_by_is_refused_for(
    s: EscrowState,
    call: Invocation,
    id: u32,
    caller: Address,
    index: u32,
)
    ensures
        ({
            let refusal = s.release_by_refusal(call, id, caller, index);
            let data = s.contracts[id];
            let ms = s.milestones[id];
            let signed = !s.paused && call.authorized@.contains(caller);
            let live = signed && !(s.finalized.contains_key(id) && s.finalized[id]);
            let found = live && s.contracts.contains_key(id);
            let funded = found && data.status == ContractStatus::Funded;
            let named = funded && match data.release_authorization {
                ReleaseAuthorization::ClientOnly => caller == data.client,
                ReleaseAuthorization::ArbiterOnly => data.arbiter == Some(caller),
                ReleaseAuthorization::ClientAndArbiter => caller == data.client || data.arbiter
                    == Some(caller),
                ReleaseAuthorization::MultiSig => caller == data.client || caller
                    == data.freelancer,
            };
            let there = named && index < ms.len();
            let unreleased = there && !ms[index as int].released;
            let open = unreleased && !ms[index as int].refunded;
            let approved = open && s.approval_times.contains_key((id, index));
            let late = data.approval_expiry_seconds matches Some(window) && call.timestamp
                > s.approval_times[(id, index)] + window;
            &&& s.paused ==> refusal == Some(Trap::Error(EscrowError::ContractPaused))
            &&& !s.paused && !signed ==> refusal == Some(Trap::Unauthorized(caller))
            &&& signed && !live ==> refusal == Some(Trap::Error(EscrowError::ContractFinalized))
            &&& live && !found ==> refusal == Some(Trap::Error(EscrowError::ContractNotFound))
            &&& found && !funded ==> refusal == Some(Trap::Error(EscrowError::InvalidState))
            &&& funded && !named ==> refusal == Some(Trap::Error(EscrowError::UnauthorizedRole))
            &&& named && !there ==> refusal == Some(Trap::Error(EscrowError::IndexOutOfBounds))
            &&& there && !unreleased ==> refusal == Some(
                Trap::Error(EscrowError::MilestoneAlreadyReleased),
            )
            &&& unreleased && !open ==> refusal == Some(Trap::Error(EscrowError::AlreadyRefunded))
            &&& open && !approved ==> refusal == Some(
                Trap::Error(EscrowError::InsufficientApprovals),
            )
            &&& approved && late ==> refusal == Some(Trap::Error(EscrowError::ApprovalExpired))
            &&& approved && !late && ms[index as int].amount > data.total_deposited
                - data.released_amount - data.refunded_amount ==> refusal == Some(
                Trap::Error(EscrowError::InsufficientFunds),
            )
        }),
{
}

/// The fee on a release: nothing before the protocol is initialized or where no
/// fee was set, and otherwise the share of the amount, rounded down.
pub proof fn the_release_fee_is_a_share_of_the_amount(s: EscrowState, id: u32, index: u32)
    ensures
        ({
            let fee = s.release_fee(id, index);
            let amount = s.milestones[id][index as int].amount;
            &&& !s.initialized || s.protocol_fee_bps is None ==> fee == 0
            &&& s.initialized ==> (s.protocol_fee_bps matches Some(bps) ==> {
                &&& fee * 10_000 <= amount * bps
                &&& amount * bps < fee * 10_000 + 10_000
            })
        }),
{
    let amount = s.milestones[id][index as int].amount;
    assert(amount * 0 == 0) by (nonlinear_arith);
}

/// There is room for a release exactly when the sum of the fees can take the fee
/// on it and, where it leaves no milestone open, the freelancer can take one more
/// rating; where another milestone stays open the ratings have no say.
pub proof fn room_for_a_release_means_this(s: EscrowState, id: u32, index: u32)
    requires
        s.contracts.contains_key(id),
        s.contracts[id].status == ContractStatus::Funded,
        index < s.milestones[id].len(),
    ensures
        ({
            let ms = s.milestones[id];
            let who = s.contracts[id].freelancer;
            let fits = s.accumulated_protocol_fees + s.release_fee(id, index) <= i128::MAX;
            let last = forall|j: int|
                0 <= j < ms.len() && j != index ==> (#[trigger] ms[j]).released || ms[j].refunded;
            let full = s.reputation_credits.contains_key(who) && s.reputation_credits[who]
                == i128::MAX;
            s.fits_release(id, index) <==> fits && !(last && full)
        }),
{
    let ms = s.milestones[id];
    let now = s.after_release(id, index).milestones[id];
    if forall|j: int|
        0 <= j < ms.len() && j != index ==> (#[trigger] ms[j]).released || ms[j].refunded {
        assert forall|j: int| 0 <= j < now.len() implies (#[trigger] now[j]).settled() by {
            if j != index {
                assert(ms[j].released || ms[j].refunded);
            }
        }
    } else {
        let j = choose|j: int|
            0 <= j < ms.len() && j != index && !((#[trigger] ms[j]).released || ms[j].refunded);
        assert(!now[j].settled());
    }
}

/// A release on behalf of a caller does to the record and the milestones what a
/// release does.  Besides, it uses up the approval of this milestone and of no
/// other, adds the fee to the sum of the fees, gives the freelancer one rating
/// exactly if it completes the contract, and announces caller, milestone, amount
/// and time.  Nothing else changes.
pub proof fn release_by_moves_one_milestone(
    s: EscrowState,
    call: Invocation,
    id: u32,
    caller: Address,
    index: u32,
)
    requires
        s.books_ok(id),
        s.release_by_refusal(call, id, caller, index) is None,
        s.fits_release(id, index),
    ensures
        s.release_refusal(id, index, call.timestamp) is None,
        ({
            let who = s.contracts[id].freelancer;
            let amount = s.milestones[id][index as int].amount;
            let released = s.after_release(id, index);
            let after = s.after_release_by(call, id, caller, index);
            let ratings: int = if s.reputation_credits.contains_key(who) {
                s.reputation_credits[who] as int
            } else {
                0
            };
            &&& after.accumulated_protocol_fees == s.accumulated_protocol_fees + s.release_fee(
                id,
                index,
            )
            &&& after.contracts[id].status == ContractStatus::Completed ==> {
                &&& after.reputation_credits.contains_key(who)
                &&& after.reputation_credits[who] == ratings + 1
                &&& after.reputation_credits == s.reputation_credits.insert(
                    who,
                    after.reputation_credits[who],
                )
            }
            &&& after.contracts[id].status != ContractStatus::Completed
                ==> after.reputation_credits == s.reputation_credits
            &&& after == (EscrowState {
                contracts: released.contracts,
                milestones: released.milestones,
                approval_times: s.approval_times.remove((id, index)),
                accumulated_protocol_fees: after.accumulated_protocol_fees,
                reputation_credits: after.reputation_credits,
                events: s.events.push(
                    Event::MilestoneReleased {
                        contract_id: id,
                        milestone_index: index,
                        caller,
                        amount,
                        released_amount: (s.contracts[id].released_amount + amount) as i128,
                        timestamp: call.timestamp,
                    },
                ),
                ..s
            })
        }),
{
    release_moves_one_milestone(s, id, index);
    lemma_release_fee_not_negative(s, id, index);
}

proof fn lemma_release_fee_not_negative(s: EscrowState, id: u32, index: u32)
    requires
        s.books_ok(id),
        s.contracts.contains_key(id),
        index < s.milestones[id].len(),
    ensures
        0 <= s.release_fee(id, index),
{
    let amount = s.milestones[id][index as int].amount;
    let bps = s.fee_bps();
    assert(amount > 0);
    assert(0 <= amount * bps) by (nonlinear_arith)
        requires
            amount > 0,
            0 <= bps,
    ;
}

/// The indices of a list are its items, in order.
pub proof fn indices_are_the_items(items: Seq<Option<u32>>, k: int)
    requires
        0 <= k < items.len(),
    ensures
        release::wanted(items).len() == items.len(),
        items[k] == Some(release::wanted(items)[k]) || items[k] is None,
{
}

/// Each milestone of a list counts once in what the list is worth and once in the
/// fees on it, which are rounded down for each.
pub proof fn lists_count_each_milestone_once(
    ms: Seq<Milestone>,
    indices: Seq<u32>,
    index: u32,
    bps: u32,
)
    ensures
        release::amount_of(ms, Seq::empty()) == 0,
        release::fees_of(ms, Seq::empty(), bps) == 0,
        release::amount_of(ms, indices.push(index)) == release::amount_of(ms, indices)
            + ms[index as int].amount,
        ({
            let amount = ms[index as int].amount;
            let fee = release::fees_of(ms, indices.push(index), bps) - release::fees_of(
                ms,
                indices,
                bps,
            );
            &&& fee * 10_000 <= amount * bps
            &&& amount * bps < fee * 10_000 + 10_000
        }),
{
    assert(indices.push(index).drop_last() =~= indices);
}

proof fn lemma_row_none(items: Seq<Option<u32>>, i: int, j: int)
    requires
        forall|c: int|
            j <= c < items.len() ==> release::pair_refusal(items[i], #[trigger] items[c]) is None,
    ensures
        release::row_refusal(items, i, j) is None,
    decreases items.len() - j,
{
    if j < items.len() {
        assert(release::pair_refusal(items[i], items[j]) is None);
        lemma_row_none(items, i, j + 1);
    }
}

proof fn lemma_row_first(items: Seq<Option<u32>>, i: int, j: int, b: int)
    requires
        j <= b < items.len(),
        forall|c: int|
            j <= c < b ==> release::pair_refusal(items[i], #[trigger] items[c]) is None,
        release::pair_refusal(items[i], items[b]) is Some,
    ensures
        release::row_refusal(items, i, j) == release::pair_refusal(items[i], items[b]),
    decreases items.len() - j,
{
    if j < b {
        assert(release::pair_refusal(items[i], items[j]) is None);
        lemma_row_first(items, i, j + 1, b);
    }
}

proof fn lemma_pairs_none(items: Seq<Option<u32>>, i: int)
    requires
        0 <= i,
        forall|a: int, b: int|
            i <= a < b < items.len() ==> release::pair_refusal(
                #[trigger] items[a],
                #[trigger] items[b],
            ) is None,
    ensures
        release::pairs_refusal(items, i) is None,
    decreases items.len() - i,
{
    if i < items.len() {
        assert forall|c: int| i + 1 <= c < items.len() implies release::pair_refusal(
            items[i],
            #[trigger] items[c],
        ) is None by {}
        lemma_row_none(items, i, i + 1);
        lemma_pairs_none(items, i + 1);
    }
}

proof fn lemma_pairs_first(items: Seq<Option<u32>>, i: int, a: int, b: int)
    requires
        0 <= i <= a < b < items.len(),
        forall|c: int, d: int|
            i <= c < d < items.len() && (c < a || c == a && d < b) ==> release::pair_refusal(
                #[trigger] items[c],
                #[trigger] items[d],
            ) is None,
        release::pair_refusal(items[a], items[b]) is Some,
    ensures
        release::pairs_refusal(items, i) == release::pair_refusal(items[a], items[b]),
    decreases a - i,
{
    if i < a {
        assert forall|c: int| i + 1 <= c < items.len() implies release::pair_refusal(
            items[i],
            #[trigger] items[c],
        ) is None by {}
        lemma_row_none(items, i, i + 1);
        lemma_pairs_first(items, i + 1, a, b);
    } else {
        assert forall|c: int| i + 1 <= c < b implies release::pair_refusal(
            items[i],
            #[trigger] items[c],
        ) is None by {}
        lemma_row_first(items, i, i + 1, b);
    }
}

/// The items of a list are read pair by pair, each with those behind it: where
/// the first pair that is not made of two different indices is the items `a` and
/// `b`, the list is refused because one of them is no index, or else because they
/// are the same one; whatever else is the matter.
pub proof fn the_first_bad_pair_decides(
    s: EscrowState,
    call: Invocation,
    id: u32,
    caller: Address,
    items: Seq<Option<u32>>,
    a: int,
    b: int,
)
    requires
        0 <= a < b < items.len(),
        forall|c: int, d: int|
            0 <= c < d < items.len() && (c < a || c == a && d < b) ==> (#[trigger] items[c])
                is Some && (#[trigger] items[d]) is Some && items[c] != items[d],
        items[a] is None || items[b] is None || items[a] == items[b],
    ensures
        items[a] is None || items[b] is None ==> s.release_all_refusal(call, id, caller, items)
            == Some(Trap::Conversion),
        items[a] is Some && items[b] is Some ==> s.release_all_refusal(call, id, caller, items)
            == Some(Trap::Error(EscrowError::DuplicateMilestoneInRefund)),
{
    lemma_pairs_first(items, 0, a, b);
}

proof fn lemma_milestones_none(ms: Seq<Milestone>, indices: Seq<u32>)
    ensures
        release::milestones_refusal(ms, indices) is None <==> forall|k: int|
            0 <= k < indices.len() ==> (#[trigger] indices[k]) < ms.len()
                && !ms[indices[k] as int].released && !ms[indices[k] as int].refunded,
    decreases indices.len(),
{
    if indices.len() > 0 {
        let rest = indices.drop_last();
        lemma_milestones_none(ms, rest);
        assert(indices.last() == indices[indices.len() - 1]);
        if release::milestones_refusal(ms, indices) is None {
            assert forall|k: int| 0 <= k < indices.len() implies (#[trigger] indices[k]) < ms.len()
                && !ms[indices[k] as int].released && !ms[indices[k] as int].refunded by {
                if k < rest.len() {
                    assert(rest[k] == indices[k]);
                }
            }
        } else if forall|k: int|
            0 <= k < indices.len() ==> (#[trigger] indices[k]) < ms.len()
                && !ms[indices[k] as int].released && !ms[indices[k] as int].refunded {
            assert forall|k: int| 0 <= k < rest.len() implies (#[trigger] rest[k]) < ms.len()
                && !ms[rest[k] as int].released && !ms[rest[k] as int].refunded by {
                assert(rest[k] == indices[k]);
            }
        }
    }
}

proof fn lemma_first_milestone(ms: Seq<Milestone>, indices: Seq<u32>, k: int)
    requires
        0 <= k < indices.len(),
        forall|j: int|
            0 <= j < k ==> (#[trigger] indices[j]) < ms.len() && !ms[indices[j] as int].released
                && !ms[indices[j] as int].refunded,
        !(indices[k] < ms.len() && !ms[indices[k] as int].released
            && !ms[indices[k] as int].refunded),
    ensures
        release::milestones_refusal(ms, indices) == Some(
            Trap::Error(
                if indices[k] >= ms.len() {
                    EscrowError::IndexOutOfBounds
                } else if ms[indices[k] as int].released {
                    EscrowError::MilestoneAlreadyReleased
                } else {
                    EscrowError::AlreadyRefunded
                },
            ),
        ),
    decreases indices.len(),
{
    let rest = indices.drop_last();
    if k < indices.len() - 1 {
        assert forall|j: int| 0 <= j < k implies (#[trigger] rest[j]) < ms.len()
            && !ms[rest[j] as int].released && !ms[rest[j] as int].refunded by {
            assert(rest[j] == indices[j]);
        }
        lemma_first_milestone(ms, rest, k);
    } else {
        assert forall|j: int| 0 <= j < rest.len() implies (#[trigger] rest[j]) < ms.len()
            && !ms[rest[j] as int].released && !ms[rest[j] as int].refunded by {
            assert(rest[j] == indices[j]);
        }
        lemma_milestones_none(ms, rest);
    }
}

/// Whether the approval of a milestone is there and no older than the window.
proof fn lemma_approvals_none(s: EscrowState, id: u32, indices: Seq<u32>, now: u64)
    ensures
        s.approvals_refusal(id, indices, now) is None <==> forall|k: int|
            0 <= k < indices.len() ==> s.approval_times.contains_key((id, #[trigger] indices[k]))
                && (s.contracts[id].approval_expiry_seconds matches Some(window) ==> now
                <= s.approval_times[(id, indices[k])] + window),
    decreases indices.len(),
{
    if indices.len() > 0 {
        let rest = indices.drop_last();
        lemma_approvals_none(s, id, rest, now);
        assert(indices.last() == indices[indices.len() - 1]);
        if s.approvals_refusal(id, indices, now) is None {
            assert forall|k: int| 0 <= k < indices.len() implies s.approval_times.contains_key(
                (id, #[trigger] indices[k]),
            ) && (s.contracts[id].approval_expiry_seconds matches Some(window) ==> now
                <= s.approval_times[(id, indices[k])] + window) by {
                if k < rest.len() {
                    assert(rest[k] == indices[k]);
                }
            }
        } else if forall|k: int|
            0 <= k < indices.len() ==> s.approval_times.contains_key((id, #[trigger] indices[k]))
                && (s.contracts[id].approval_expiry_seconds matches Some(window) ==> now
                <= s.approval_times[(id, indices[k])] + window) {
            assert forall|k: int| 0 <= k < rest.len() implies s.approval_times.contains_key(
                (id, #[trigger] rest[k]),
            ) && (s.contracts[id].approval_expiry_seconds matches Some(window) ==> now
                <= s.approval_times[(id, rest[k])] + window) by {
                assert(rest[k] == indices[k]);
            }
        }
    }
}

proof fn lemma_first_approval(s: EscrowState, id: u32, indices: Seq<u32>, now: u64, k: int)
    requires
        0 <= k < indices.len(),
        forall|j: int|
            0 <= j < k ==> s.approval_times.contains_key((id, #[trigger] indices[j])) && (
            s.contracts[id].approval_expiry_seconds matches Some(window) ==> now
                <= s.approval_times[(id, indices[j])] + window),
        !s.approval_times.contains_key((id, indices[k])) || (
        s.contracts[id].approval_expiry_seconds matches Some(window) && now > s.approval_times[(
            id,
            indices[k],
        )] + window),
    ensures
        s.approvals_refusal(id, indices, now) == Some(
            Trap::Error(
                if s.approval_times.contains_key((id, indices[k])) {
                    EscrowError::ApprovalExpired
                } else {
                    EscrowError::InsufficientApprovals
                },
            ),
        ),
    decreases indices.len(),
{
    let rest = indices.drop_last();
    assert forall|j: int| 0 <= j < k implies s.approval_times.contains_key(
        (id, #[trigger] rest[j]),
    ) && (s.contracts[id].approval_expiry_seconds matches Some(window) ==> now
        <= s.approval_times[(id, rest[j])] + window) by {
        assert(rest[j] == indices[j]);
    }
    if k < indices.len() - 1 {
        assert(rest[k] == indices[k]);
        lemma_first_approval(s, id, rest, now, k);
    } else {
        lemma_approvals_none(s, id, rest, now);
    }
}

/// A list of milestones is released exactly when it holds at least one index,
/// each item is an index and none comes twice, the caller signs, the contract is
/// there, not finalized and funded, gives them the role, each milestone is there
/// and open, each is approved and the approval is no older than the window, and
/// the money in the contract covers them all.
pub proof fn release_all_is_accepted_exactly_when(
    s: EscrowState,
    call: Invocation,
    id: u32,
    caller: Address,
    items: Seq<Option<u32>>,
)
    ensures
        s.release_all_refusal(call, id, caller, items) is None <==> {
            let data = s.contracts[id];
            let ms = s.milestones[id];
            let indices = release::wanted(items);
            &&& items.len() > 0
            &&& forall|k: int| 0 <= k < items.len() ==> (#[trigger] items[k]) is Some
            &&& forall|a: int, b: int|
                0 <= a < b < items.len() ==> #[trigger] items[a] != #[trigger] items[b]
            &&& call.authorized@.contains(caller)
            &&& s.contracts.contains_key(id)
            &&& !(s.finalized.contains_key(id) && s.finalized[id])
            &&& data.status == ContractStatus::Funded
            &&& data.release_authorization == ReleaseAuthorization::ClientOnly ==> caller
                == data.client
            &&& data.release_authorization == ReleaseAuthorization::ArbiterOnly ==> data.arbiter
                == Some(caller)
            &&& data.release_authorization == ReleaseAuthorization::ClientAndArbiter ==> (caller
                == data.client || data.arbiter == Some(caller))
            &&& data.release_authorization == ReleaseAuthorization::MultiSig ==> (caller
                == data.client || caller == data.freelancer)
            &&& forall|k: int|
                0 <= k < indices.len() ==> (#[trigger] indices[k]) < ms.len()
                    && !ms[indices[k] as int].released && !ms[indices[k] as int].refunded
            &&& forall|k: int|
                0 <= k < indices.len() ==> s.approval_times.contains_key(
                    (id, #[trigger] indices[k]),
                ) && (data.approval_expiry_seconds matches Some(window) ==> call.timestamp
                    <= s.approval_times[(id, indices[k])] + window)
            &&& release::amount_of(ms, indices) <= data.total_deposited - data.released_amount
                - data.refunded_amount
        },
{
    let indices = release::wanted(items);
    lemma_milestones_none(s.milestones[id], indices);
    lemma_approvals_none(s, id, indices, call.timestamp);
    if release::pairs_refusal(items, 0) is None {
        lemma_good_pairs(items);
    }
    if (forall|k: int| 0 <= k < items.len() ==> (#[trigger] items[k]) is Some) && (forall|
        a: int,
        b: int,
    | 0 <= a < b < items.len() ==> #[trigger] items[a] != #[trigger] items[b]) {
        lemma_pairs_none(items, 0);
    }
}

proof fn lemma_good_pairs(items: Seq<Option<u32>>)
    requires
        release::pairs_refusal(items, 0) is None,
    ensures
        !items.contains(None) ==> (forall|k: int|
            0 <= k < items.len() ==> (#[trigger] items[k]) is Some),
        !items.contains(None) ==> (forall|a: int, b: int|
            0 <= a < b < items.len() ==> #[trigger] items[a] != #[trigger] items[b]),
{
    if !items.contains(None) {
        release::lemma_distinct(items);
        assert forall|a: int, b: int| 0 <= a < b < items.len() implies #[trigger] items[a]
            != #[trigger] items[b] by {
            assert(release::wanted(items)[a] != release::wanted(items)[b]);
        }
    }
}

/// The reasons against the release of a list of different items, in their order;
/// `k` is the first milestone of the list that cannot be released, or the first
/// whose approval does not carry a release.
pub proof fn release_all_is_refused_for(
    s: EscrowState,
    call: Invocation,
    id: u32,
    caller: Address,
    items: Seq<Option<u32>>,
    k: int,
)
    requires
        items.len() > 1 ==> forall|j: int| 0 <= j < items.len() ==> (#[trigger] items[j]) is Some,
        forall|a: int, b: int|
            0 <= a < b < items.len() ==> #[trigger] items[a] != #[trigger] items[b],
    ensures
        ({
            let refusal = s.release_all_refusal(call, id, caller, items);
            let data = s.contracts[id];
            let ms = s.milestones[id];
            let indices = release::wanted(items);
            let signed = items.len() > 0 && call.authorized@.contains(caller);
            let found = signed && s.contracts.contains_key(id);
            let live = found && !(s.finalized.contains_key(id) && s.finalized[id]);
            let read = live && items[0] is Some;
            let open = read && forall|j: int|
                0 <= j < indices.len() ==> (#[trigger] indices[j]) < ms.len()
                    && !ms[indices[j] as int].released && !ms[indices[j] as int].refunded;
            let funded = open && data.status == ContractStatus::Funded;
            let named = funded && match data.release_authorization {
                ReleaseAuthorization::ClientOnly => caller == data.client,
                ReleaseAuthorization::ArbiterOnly => data.arbiter == Some(caller),
                ReleaseAuthorization::ClientAndArbiter => caller == data.client || data.arbiter
                    == Some(caller),
                ReleaseAuthorization::MultiSig => caller == data.client || caller
                    == data.freelancer,
            };
            let approved = named && forall|j: int|
                0 <= j < indices.len() ==> s.approval_times.contains_key(
                    (id, #[trigger] indices[j]),
                ) && (data.approval_expiry_seconds matches Some(window) ==> call.timestamp
                    <= s.approval_times[(id, indices[j])] + window);
            &&& items.len() == 0 ==> refusal == Some(Trap::Error(EscrowError::EmptyRefundRequest))
            &&& items.len() > 0 && !signed ==> refusal == Some(Trap::Unauthorized(caller))
            &&& signed && !found ==> refusal == Some(Trap::Error(EscrowError::ContractNotFound))
            &&& found && !live ==> refusal == Some(Trap::Error(EscrowError::ContractFinalized))
            &&& live && !read ==> refusal == Some(Trap::Conversion)
            &&& read && 0 <= k < indices.len() && (forall|j: int|
                0 <= j < k ==> (#[trigger] indices[j]) < ms.len() && !ms[indices[j] as int].released
                    && !ms[indices[j] as int].refunded) ==> {
                &&& indices[k] >= ms.len() ==> refusal == Some(
                    Trap::Error(EscrowError::IndexOutOfBounds),
                )
                &&& indices[k] < ms.len() && ms[indices[k] as int].released ==> refusal == Some(
                    Trap::Error(EscrowError::MilestoneAlreadyReleased),
                )
                &&& indices[k] < ms.len() && !ms[indices[k] as int].released
                    && ms[indices[k] as int].refunded ==> refusal == Some(
                    Trap::Error(EscrowError::AlreadyRefunded),
                )
            }
            &&& open && !funded ==> refusal == Some(Trap::Error(EscrowError::InvalidState))
            &&& funded && !named ==> refusal == Some(Trap::Error(EscrowError::UnauthorizedRole))
            &&& named && 0 <= k < indices.len() && (forall|j: int|
                0 <= j < k ==> s.approval_times.contains_key((id, #[trigger] indices[j])) && (
                data.approval_expiry_seconds matches Some(window) ==> call.timestamp
                    <= s.approval_times[(id, indices[j])] + window)) ==> {
                &&& !s.approval_times.contains_key((id, indices[k])) ==> refusal == Some(
                    Trap::Error(EscrowError::InsufficientApprovals),
                )
                &&& s.approval_times.contains_key((id, indices[k])) && (
                data.approval_expiry_seconds matches Some(window) && call.timestamp
                    > s.approval_times[(id, indices[k])] + window) ==> refusal == Some(
                    Trap::Error(EscrowError::ApprovalExpired),
                )
            }
            &&& approved && release::amount_of(ms, indices) > data.total_deposited
                - data.released_amount - data.refunded_amount ==> refusal == Some(
                Trap::Error(EscrowError::InsufficientFunds),
            )
        }),
{
    let ms = s.milestones[id];
    let indices = release::wanted(items);
    let now = call.timestamp;
    lemma_pairs_none(items, 0);
    if items.len() == 1 {
        assert(items.contains(None) <==> items[0] is None) by {
            if items[0] is None {
                assert(items[0] == None::<u32>);
            }
        }
    }
    lemma_milestones_none(ms, indices);
    lemma_approvals_none(s, id, indices, now);
    if 0 <= k < indices.len() && (forall|j: int|
        0 <= j < k ==> (#[trigger] indices[j]) < ms.len() && !ms[indices[j] as int].released
            && !ms[indices[j] as int].refunded) && !(indices[k] < ms.len()
        && !ms[indices[k] as int].released && !ms[indices[k] as int].refunded) {
        lemma_first_milestone(ms, indices, k);
    }
    if 0 <= k < indices.len() && (forall|j: int|
        0 <= j < k ==> s.approval_times.contains_key((id, #[trigger] indices[j])) && (
        s.contracts[id].approval_expiry_seconds matches Some(window) ==> now
            <= s.approval_times[(id, indices[j])] + window)) && (!s.approval_times.contains_key(
        (id, indices[k]),
    ) || (s.contracts[id].approval_expiry_seconds matches Some(window) && now
        > s.approval_times[(id, indices[k])] + window)) {
        lemma_first_approval(s, id, indices, now, k);
    }
}

/// The release of a list marks the milestones of the list, and no others, as
/// released, adds what they are worth to what was released, uses up their
/// approvals and no others, and adds the fees on them to the sum of the fees.
/// The contract is completed exactly if no milestone is then left open.  Nothing
/// else changes.
pub proof fn release_all_moves_the_listed_milestones(
    s: EscrowState,
    call: Invocation,
    id: u32,
    caller: Address,
    items: Seq<Option<u32>>,
)
    requires
        s.books_ok(id),
        s.release_all_refusal(call, id, caller, items) is None,
        s.accumulated_protocol_fees + release::fees_of(
            s.milestones[id],
            release::wanted(items),
            s.fee_bps(),
        ) <= i128::MAX,
    ensures
        ({
            let indices = release::wanted(items);
            let before = s.contracts[id];
            let ms = s.milestones[id];
            let after = s.after_release_all(id, indices);
            let data = after.contracts[id];
            let now = after.milestones[id];
            &&& now.len() == ms.len()
            &&& forall|j: int|
                0 <= j < ms.len() && items.contains(Some(j as u32)) ==> #[trigger] now[j] == (
                Milestone { amount: ms[j].amount, released: true, refunded: ms[j].refunded })
            &&& forall|j: int|
                0 <= j < ms.len() && !items.contains(Some(j as u32)) ==> #[trigger] now[j] == ms[j]
            &&& data.released_amount == before.released_amount + release::amount_of(ms, indices)
            &&& (forall|j: int|
                0 <= j < now.len() ==> (#[trigger] now[j]).released || now[j].refunded)
                ==> data.status == ContractStatus::Completed
            &&& (exists|j: int|
                0 <= j < now.len() && !(#[trigger] now[j]).released && !now[j].refunded)
                ==> data.status == ContractStatus::Funded
            &&& data == (EscrowContractData {
                released_amount: data.released_amount,
                status: data.status,
                ..before
            })
            &&& forall|key: (u32, u32)| #[trigger]
                after.approval_times.contains_key(key) <==> s.approval_times.contains_key(key)
                    && !(key.0 == id && items.contains(Some(key.1)))
            &&& forall|key: (u32, u32)| #[trigger]
                after.approval_times.contains_key(key) ==> after.approval_times[key]
                    == s.approval_times[key]
            &&& after.accumulated_protocol_fees == s.accumulated_protocol_fees + release::fees_of(
                ms,
                indices,
                s.fee_bps(),
            )
            &&& after == (EscrowState {
                contracts: s.contracts.insert(id, data),
                milestones: s.milestones.insert(id, now),
                approval_times: after.approval_times,
                accumulated_protocol_fees: after.accumulated_protocol_fees,
                ..s
            })
        }),
{
    let indices = release::wanted(items);
    let ms = s.milestones[id];
    let after = s.after_release_all(id, indices);
    let now = after.milestones[id];
    release_all_is_accepted_exactly_when(s, call, id, caller, items);
    release::lemma_distinct(items);
    release::lemma_released_at(ms, indices);
    accounts::lemma_bounded(ms);
    lemma_fees_not_negative(ms, indices, s.fee_bps());
    lemma_settled(now);
    assert forall|x: u32| indices.contains(x) <==> #[trigger] items.contains(Some(x)) by {
        if indices.contains(x) {
            let k = choose|k: int| 0 <= k < indices.len() && indices[k] == x;
            assert(items[k] == Some(x));
        }
        if items.contains(Some(x)) {
            let k = choose|k: int| 0 <= k < items.len() && items[k] == Some(x);
            assert(indices[k] == x);
        }
    }
    assert forall|j: int| 0 <= j < ms.len() && items.contains(Some(j as u32)) implies
        #[trigger] now[j] == (Milestone {
        amount: ms[j].amount,
        released: true,
        refunded: ms[j].refunded,
    }) by {
        assert(indices.contains(j as u32));
    }
    assert forall|key: (u32, u32)| #[trigger] after.approval_times.contains_key(key)
        <==> s.approval_times.contains_key(key) && !(key.0 == id && items.contains(
        Some(key.1),
    )) by {
        assert(indices.contains(key.1) <==> items.contains(Some(key.1)));
    }
}

proof fn lemma_fees_not_negative(ms: Seq<Milestone>, indices: Seq<u32>, bps: u32)
    requires
        accounts::bounded(ms),
        release::milestones_refusal(ms, indices) is None,
    ensures
        0 <= release::fees_of(ms, indices, bps),
    decreases indices.len(),
{
    if indices.len() > 0 {
        lemma_fees_not_negative(ms, indices.drop_last(), bps);
        let amount = ms[indices.last() as int].amount;
        assert(0 <= amount * bps) by (nonlinear_arith)
            requires
                amount > 0,
                0 <= bps,
        ;
    }
}

/// No step pays anything out of a contract that is not funded: what was released,
/// and every milestone, stay as they are while it is created, completed,
/// cancelled, refunded or in dispute.
pub proof fn only_funded_contracts_pay_out(s: EscrowState, step: laws::Step, id: u32)
    requires
        s.wf(),
        s.contracts.contains_key(id),
        s.contracts[id].status != ContractStatus::Funded,
    ensures
        s.take_step(step).contracts.contains_key(id),
        s.take_step(step).contracts[id].released_amount == s.contracts[id].released_amount,
        s.take_step(step).contracts[id].refunded_amount == s.contracts[id].refunded_amount,
        s.take_step(step).milestones[id] == s.milestones[id],
{
    if laws::acts_on(step) != Some(id) {
        laws::step_touches_one_contract(s, step, id);
    }
}

/// No release is accepted out of a contract that is not funded, by whichever way.
pub proof fn releases_need_a_funded_contract(
    s: EscrowState,
    call: Invocation,
    id: u32,
    caller: Address,
    index: u32,
    items: Seq<Option<u32>>,
)
    requires
        s.contracts[id].status != ContractStatus::Funded,
    ensures
        s.release_refusal(id, index, call.timestamp) is Some,
        s.release_by_refusal(call, id, caller, index) is Some,
        s.release_all_refusal(call, id, caller, items) is Some,
{
}

/// What the releases of a contract can pay out, one way or the other, is exactly
/// what stands open against what was paid in: a step that changes what was
/// released adds to it the amounts of the milestones that it marks, and takes as
/// much from what is available.
pub proof fn what_is_paid_out_was_open(s: EscrowState, step: laws::Step, id: u32)
    requires
        s.wf(),
        s.has_room(step),
        s.contracts.contains_key(id),
    ensures
        ({
            let after = s.take_step(step);
            let paid = after.contracts[id].released_amount - s.contracts[id].released_amount;
            &&& paid == accounts::released_total(after.milestones[id]) - accounts::released_total(
                s.milestones[id],
            )
            &&& paid >= 0
            &&& paid <= after.contracts[id].total_deposited - s.contracts[id].released_amount
                - s.contracts[id].refunded_amount
        }),
{
    laws::step_keeps_invariant(s, step);
    laws::money_moves_forward(s, step, id);
    assert(s.books_ok(id));
    assert(s.take_step(step).books_ok(id));
    if laws::acts_on(step) != Some(id) {
        laws::step_touches_one_contract(s, step, id);
    }
}

} // verus!
