//! Sums over the milestones of one contract, and the books that they keep.

use vstd::prelude::*;

use crate::host;
use crate::host::{amount_at, amounts_len};
use crate::types::{
    ContractStatus, EscrowContractData, Milestone, BPS_DENOMINATOR, MAX_MILESTONES,
    MAX_TOTAL_ESCROW_STROOPS,
};

verus! {

impl Milestone {
    /// Whether the money of the milestone has gone to one side.
    pub open spec fn settled(self) -> bool {
        self.released || self.refunded
    }

    /// The milestone once its money has gone to the freelancer.
    pub open spec fn after_release(self) -> Milestone {
        Milestone { released: true, ..self }
    }
}

/// The amounts of the milestones, as a host vector lists them.
pub open spec fn listed(ms: Seq<Milestone>) -> Seq<Option<i128>> {
    ms.map_values(|m: Milestone| Some(m.amount))
}

/// The sum of the shares of all milestones.
pub open spec fn sum_of(ms: Seq<Milestone>, share: spec_fn(Milestone) -> int) -> int
    decreases ms.len(),
{
    if ms.len() == 0 {
        0
    } else {
        sum_of(ms.drop_last(), share) + share(ms.last())
    }
}

/// What all milestones together are worth.
pub open spec fn total(ms: Seq<Milestone>) -> int {
    sum_of(ms, |m: Milestone| m.amount as int)
}

/// What has gone to the freelancer.
pub open spec fn released_total(ms: Seq<Milestone>) -> int {
    sum_of(
        ms,
        |m: Milestone|
            if m.released {
                m.amount as int
            } else {
                0
            },
    )
}

/// What has gone back to the client.
pub open spec fn refunded_total(ms: Seq<Milestone>) -> int {
    sum_of(
        ms,
        |m: Milestone|
            if m.refunded {
                m.amount as int
            } else {
                0
            },
    )
}

/// Whether the money of every milestone has gone to one side.
pub open spec fn all_settled(ms: Seq<Milestone>) -> bool {
    forall|i: int| 0 <= i < ms.len() ==> (#[trigger] ms[i]).settled()
}

/// Milestones within the bounds of the contract, none of them released and
/// refunded at once.
pub open spec fn bounded(ms: Seq<Milestone>) -> bool {
    &&& 1 <= ms.len() <= MAX_MILESTONES
    &&& forall|i: int|
        0 <= i < ms.len() ==> (#[trigger] ms[i]).amount > 0 && !(ms[i].released && ms[i].refunded)
    &&& total(ms) <= MAX_TOTAL_ESCROW_STROOPS
}

/// The protocol fee on an amount, rounded down.
pub open spec fn protocol_fee(amount: int, bps: int) -> int {
    amount * bps / (BPS_DENOMINATOR as int)
}

impl EscrowContractData {
    /// The money in the contract that has gone to neither side.
    pub open spec fn available(self) -> int {
        self.total_deposited - self.released_amount - self.refunded_amount
    }

    /// The books of a contract with milestones `ms`: the record and the
    /// milestones agree, no more is paid in than the milestones are worth, and
    /// no more is paid out than was paid in.
    pub open spec fn balances(self, ms: Seq<Milestone>) -> bool {
        &&& bounded(ms)
        &&& host::amounts_in(self.milestones) == listed(ms)
        &&& self.released_amount == released_total(ms)
        &&& self.refunded_amount == refunded_total(ms)
        &&& self.available() >= 0
        &&& self.total_deposited <= total(ms)
        &&& self.status is Created ==> self.total_deposited == 0
        &&& self.status is Completed ==> all_settled(ms)
    }
}

/// Replacing one milestone changes a sum by the difference of the two shares.
pub proof fn lemma_sum_update(
    ms: Seq<Milestone>,
    i: int,
    m: Milestone,
    share: spec_fn(Milestone) -> int,
)
    requires
        0 <= i < ms.len(),
    ensures
        sum_of(ms.update(i, m), share) == sum_of(ms, share) - share(ms[i]) + share(m),
    decreases ms.len(),
{
    if i == ms.len() - 1 {
        assert(ms.update(i, m).drop_last() =~= ms.drop_last());
    } else {
        assert(ms.update(i, m).drop_last() =~= ms.drop_last().update(i, m));
        lemma_sum_update(ms.drop_last(), i, m, share);
    }
}

/// Larger shares make a larger sum.
pub proof fn lemma_sum_le(
    ms: Seq<Milestone>,
    a: spec_fn(Milestone) -> int,
    b: spec_fn(Milestone) -> int,
)
    requires
        forall|i: int| 0 <= i < ms.len() ==> a(#[trigger] ms[i]) <= b(ms[i]),
    ensures
        sum_of(ms, a) <= sum_of(ms, b),
    decreases ms.len(),
{
    if ms.len() > 0 {
        let rest = ms.drop_last();
        assert forall|i: int| 0 <= i < rest.len() implies a(#[trigger] rest[i]) <= b(rest[i]) by {
            assert(rest[i] == ms[i]);
        }
        lemma_sum_le(rest, a, b);
        assert(ms.last() == ms[ms.len() - 1]);
    }
}

/// Shares that add up make sums that add up.
pub proof fn lemma_sum_add(
    ms: Seq<Milestone>,
    a: spec_fn(Milestone) -> int,
    b: spec_fn(Milestone) -> int,
    c: spec_fn(Milestone) -> int,
)
    requires
        forall|i: int| 0 <= i < ms.len() ==> a(#[trigger] ms[i]) + b(ms[i]) == c(ms[i]),
    ensures
        sum_of(ms, a) + sum_of(ms, b) == sum_of(ms, c),
    decreases ms.len(),
{
    if ms.len() > 0 {
        let rest = ms.drop_last();
        assert forall|i: int| 0 <= i < rest.len() implies a(#[trigger] rest[i]) + b(rest[i]) == c(
            rest[i],
        ) by {
            assert(rest[i] == ms[i]);
        }
        lemma_sum_add(rest, a, b, c);
        assert(ms.last() == ms[ms.len() - 1]);
    }
}

/// A sum of shares of which none is negative is no smaller than any part of it.
pub proof fn lemma_sum_prefix(ms: Seq<Milestone>, k: int, share: spec_fn(Milestone) -> int)
    requires
        0 <= k <= ms.len(),
        forall|i: int| 0 <= i < ms.len() ==> share(#[trigger] ms[i]) >= 0,
    ensures
        0 <= sum_of(ms.take(k), share) <= sum_of(ms, share),
    decreases ms.len(),
{
    if ms.len() > 0 {
        let rest = ms.drop_last();
        assert forall|i: int| 0 <= i < rest.len() implies share(#[trigger] rest[i]) >= 0 by {
            assert(rest[i] == ms[i]);
        }
        assert(ms.last() == ms[ms.len() - 1]);
        if k == ms.len() {
            lemma_sum_prefix(rest, k - 1, share);
            assert(ms.take(k) =~= ms);
            assert(rest.take(k - 1) =~= rest);
        } else {
            lemma_sum_prefix(rest, k, share);
            assert(rest.take(k) =~= ms.take(k));
        }
    } else {
        assert(ms.take(k) =~= ms);
    }
}

/// The sums of a bounded list of milestones lie between nothing and the total,
/// and what is released and refunded together is no more than the total.
pub proof fn lemma_bounded(ms: Seq<Milestone>)
    requires
        bounded(ms),
    ensures
        0 <= released_total(ms),
        0 <= refunded_total(ms),
        released_total(ms) + refunded_total(ms) <= total(ms),
        all_settled(ms) ==> released_total(ms) + refunded_total(ms) == total(ms),
        forall|i: int| 0 <= i < ms.len() ==> (#[trigger] ms[i]).amount <= total(ms),
{
    let amount = |m: Milestone| m.amount as int;
    let released = |m: Milestone|
        if m.released {
            m.amount as int
        } else {
            0
        };
    let refunded = |m: Milestone|
        if m.refunded {
            m.amount as int
        } else {
            0
        };
    let both = |m: Milestone| released(m) + refunded(m);
    lemma_sum_prefix(ms, 0, released);
    lemma_sum_prefix(ms, 0, refunded);
    lemma_sum_add(ms, released, refunded, both);
    lemma_sum_le(ms, both, amount);
    if all_settled(ms) {
        lemma_sum_le(ms, amount, both);
    }
    assert forall|i: int| 0 <= i < ms.len() implies (#[trigger] ms[i]).amount <= total(ms) by {
        lemma_sum_prefix(ms, i + 1, amount);
        lemma_sum_prefix(ms, i, amount);
        lemma_sum_prefix(ms.take(i + 1), i, amount);
        assert(ms.take(i + 1).drop_last() =~= ms.take(i));
    }
}

/// Releasing an open milestone keeps the list bounded and moves its amount, and
/// nothing else, to the freelancer.
pub proof fn lemma_release(ms: Seq<Milestone>, i: int)
    requires
        bounded(ms),
        0 <= i < ms.len(),
        !ms[i].settled(),
    ensures
        bounded(ms.update(i, ms[i].after_release())),
        total(ms.update(i, ms[i].after_release())) == total(ms),
        released_total(ms.update(i, ms[i].after_release())) == released_total(ms) + ms[i].amount,
        refunded_total(ms.update(i, ms[i].after_release())) == refunded_total(ms),
{
    let m = ms[i].after_release();
    lemma_sum_update(ms, i, m, |m: Milestone| m.amount as int);
    lemma_sum_update(
        ms,
        i,
        m,
        |m: Milestone|
            if m.released {
                m.amount as int
            } else {
                0
            },
    );
    lemma_sum_update(
        ms,
        i,
        m,
        |m: Milestone|
            if m.refunded {
                m.amount as int
            } else {
                0
            },
    );
}

/// Adds up what the milestones are worth.
pub fn total_amount(ms: &Vec<Milestone>) -> (r: i128)
    requires
        bounded(ms@),
    ensures
        r == total(ms@),
{
    let mut sum: i128 = 0;
    let mut i: usize = 0;
    while i < ms.len()
        invariant
            i <= ms@.len(),
            bounded(ms@),
            sum == total(ms@.take(i as int)),
        decreases ms@.len() - i,
    {
        proof {
            lemma_sum_prefix(ms@, i + 1, |m: Milestone| m.amount as int);
            assert(ms@.take(i + 1).drop_last() =~= ms@.take(i as int));
            lemma_sum_prefix(ms@, i as int, |m: Milestone| m.amount as int);
        }
        sum = sum + ms[i].amount;
        i = i + 1;
    }
    assert(ms@.take(i as int) =~= ms@);
    sum
}

/// Tells whether the money of every milestone has gone to one side.
pub fn every_settled(ms: &Vec<Milestone>) -> (r: bool)
    ensures
        r == all_settled(ms@),
{
    let mut i: usize = 0;
    while i < ms.len()
        invariant
            i <= ms@.len(),
            forall|j: int| 0 <= j < i ==> (#[trigger] ms@[j]).settled(),
        decreases ms@.len() - i,
    {
        if !ms[i].released && !ms[i].refunded {
            assert(!ms@[i as int].settled());
            return false;
        }
        i = i + 1;
    }
    true
}

/// Computes the protocol fee on an amount, rounded down.
pub fn calculate_protocol_fee(amount: i128, bps: u32) -> (fee: i128)
    requires
        0 <= amount <= MAX_TOTAL_ESCROW_STROOPS,
    ensures
        fee == protocol_fee(amount as int, bps as int),
        0 <= fee,
{
    assert(0 <= amount * bps <= MAX_TOTAL_ESCROW_STROOPS * u32::MAX) by (nonlinear_arith)
        requires
            0 <= amount <= MAX_TOTAL_ESCROW_STROOPS,
            0 <= bps <= u32::MAX,
    ;
    amount * (bps as i128) / BPS_DENOMINATOR
}

/// Shares of which none is negative or above `most` make a sum of at most `most`
/// for each milestone.
proof fn lemma_sum_within(ms: Seq<Milestone>, share: spec_fn(Milestone) -> int, most: int)
    requires
        0 <= most,
        forall|i: int| 0 <= i < ms.len() ==> 0 <= share(#[trigger] ms[i]) <= most,
    ensures
        0 <= sum_of(ms, share) <= ms.len() * most,
    decreases ms.len(),
{
    if ms.len() > 0 {
        let rest = ms.drop_last();
        assert forall|i: int| 0 <= i < rest.len() implies 0 <= share(#[trigger] rest[i])
            <= most by {
            assert(rest[i] == ms[i]);
        }
        lemma_sum_within(rest, share, most);
        assert(ms.last() == ms[ms.len() - 1]);
        assert(rest.len() * most + most == ms.len() * most) by (nonlinear_arith)
            requires
                rest.len() + 1 == ms.len(),
        ;
    }
}

/// Tells whether every milestone is positive, within the cap, not both released
/// and refunded, and listed in the record.
fn entries_agree(data: &EscrowContractData, ms: &Vec<Milestone>) -> (r: bool)
    ensures
        r == {
            &&& 1 <= ms@.len() <= MAX_MILESTONES
            &&& forall|i: int|
                0 <= i < ms@.len() ==> 0 < (#[trigger] ms@[i]).amount <= MAX_TOTAL_ESCROW_STROOPS
                    && !(ms@[i].released && ms@[i].refunded)
            &&& host::amounts_in(data.milestones) == listed(ms@)
        },
{
    let ghost items = host::amounts_in(data.milestones);
    if ms.len() < 1 || ms.len() > MAX_MILESTONES as usize {
        return false;
    }
    let count: u32 = amounts_len(&data.milestones);
    if count as usize != ms.len() {
        assert(listed(ms@).len() == ms@.len());
        return false;
    }
    let mut i: u32 = 0;
    while i < count
        invariant
            i <= count,
            count == ms@.len(),
            items == host::amounts_in(data.milestones),
            items.len() == count,
            forall|j: int|
                0 <= j < i ==> 0 < (#[trigger] ms@[j]).amount <= MAX_TOTAL_ESCROW_STROOPS && !(
                ms@[j].released && ms@[j].refunded),
            forall|j: int| 0 <= j < i ==> #[trigger] items[j] == Some(ms@[j].amount),
        decreases count - i,
    {
        let m: Milestone = ms[i as usize];
        let same: bool = match amount_at(&data.milestones, i) {
            Some(amount) => amount == m.amount,
            None => false,
        };
        if !same {
            assert(listed(ms@)[i as int] == Some(m.amount));
            return false;
        }
        if m.amount <= 0 || m.amount > MAX_TOTAL_ESCROW_STROOPS || (m.released && m.refunded) {
            assert(ms@[i as int] == m);
            return false;
        }
        i = i + 1;
    }
    assert(items =~= listed(ms@));
    true
}

/// Tells whether the books of a contract with milestones `ms` balance.
pub fn check_balances(data: &EscrowContractData, ms: &Vec<Milestone>) -> (r: bool)
    ensures
        r == data.balances(ms@),
{
    let ghost amount_share = |m: Milestone| m.amount as int;
    let ghost released_share = |m: Milestone|
        if m.released {
            m.amount as int
        } else {
            0
        };
    let ghost refunded_share = |m: Milestone|
        if m.refunded {
            m.amount as int
        } else {
            0
        };
    if !entries_agree(data, ms) {
        proof {
            if data.balances(ms@) {
                lemma_bounded(ms@);
            }
        }
        return false;
    }
    let mut sum: i128 = 0;
    let mut released: i128 = 0;
    let mut refunded: i128 = 0;
    let mut i: usize = 0;
    while i < ms.len()
        invariant
            i <= ms@.len() <= MAX_MILESTONES,
            forall|j: int|
                0 <= j < ms@.len() ==> 0 < (#[trigger] ms@[j]).amount <= MAX_TOTAL_ESCROW_STROOPS,
            amount_share == |m: Milestone| m.amount as int,
            released_share == |m: Milestone|
                if m.released {
                    m.amount as int
                } else {
                    0
                },
            refunded_share == |m: Milestone|
                if m.refunded {
                    m.amount as int
                } else {
                    0
                },
            sum == sum_of(ms@.take(i as int), amount_share),
            released == sum_of(ms@.take(i as int), released_share),
            refunded == sum_of(ms@.take(i as int), refunded_share),
        decreases ms@.len() - i,
    {
        proof {
            let part = ms@.take(i as int);
            assert(ms@.take(i + 1).drop_last() =~= part);
            lemma_sum_within(part, amount_share, MAX_TOTAL_ESCROW_STROOPS as int);
            lemma_sum_within(part, released_share, MAX_TOTAL_ESCROW_STROOPS as int);
            lemma_sum_within(part, refunded_share, MAX_TOTAL_ESCROW_STROOPS as int);
        }
        let m: Milestone = ms[i];
        sum = sum + m.amount;
        if m.released {
            released = released + m.amount;
        }
        if m.refunded {
            refunded = refunded + m.amount;
        }
        i = i + 1;
    }
    assert(ms@.take(i as int) =~= ms@);
    if sum > MAX_TOTAL_ESCROW_STROOPS {
        return false;
    }
    proof {
        lemma_bounded(ms@);
    }
    if data.released_amount != released || data.refunded_amount != refunded {
        return false;
    }
    if data.total_deposited < released + refunded || data.total_deposited > sum {
        return false;
    }
    if data.status == ContractStatus::Created && data.total_deposited != 0 {
        return false;
    }
    if data.status == ContractStatus::Completed && !every_settled(ms) {
        return false;
    }
    true
}

} // verus!
