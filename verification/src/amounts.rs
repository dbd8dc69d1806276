//! The arithmetic of shares, in basis points of an amount.

use vstd::prelude::*;

verus! {

/// The whole of an amount, in basis points.
pub const MAX_BPS: u16 = 10_000;

/// `bps` basis points of `amount`, rounded down.
pub open spec fn portion_of(amount: int, bps: int) -> int {
    amount * bps / (MAX_BPS as int)
}

/// The sum of a list of percentages.
pub open spec fn sum_bps(bps: Seq<u16>) -> int
    decreases bps.len(),
{
    if bps.len() == 0 {
        0
    } else {
        sum_bps(bps.drop_last()) + bps.last()
    }
}

/// The sum of a list of amounts.
pub open spec fn sum_amounts(amounts: Seq<u64>) -> int
    decreases amounts.len(),
{
    if amounts.len() == 0 {
        0
    } else {
        sum_amounts(amounts.drop_last()) + amounts.last()
    }
}

/// The sum of the rounded portions of `amount` that the first `count` percentages give.
pub open spec fn sum_portions(amount: int, bps: Seq<u16>, count: nat) -> int
    decreases count,
{
    if count == 0 {
        0
    } else {
        sum_portions(amount, bps, (count - 1) as nat) + portion_of(amount, bps[count - 1] as int)
    }
}

/// What recipient `i` gets of `amount`: the rounded portion, and for the last one all that the
/// portions of the others leave.
pub open spec fn share_of(amount: int, bps: Seq<u16>, i: nat) -> int {
    if i == bps.len() - 1 {
        amount - sum_portions(amount, bps, i)
    } else {
        portion_of(amount, bps[i as int] as int)
    }
}

/// The sum of what the first `count` recipients get of `amount`.
pub open spec fn sum_shares(amount: int, bps: Seq<u16>, count: nat) -> int
    decreases count,
{
    if count == 0 {
        0
    } else {
        sum_shares(amount, bps, (count - 1) as nat) + share_of(amount, bps, (count - 1) as nat)
    }
}

/// Every percentage is positive, and they make up the whole.
pub open spec fn is_whole(bps: Seq<u16>) -> bool {
    &&& forall|i: int| 0 <= i < bps.len() ==> bps[i] > 0
    &&& sum_bps(bps) == MAX_BPS
}

/// A portion of an amount lies between nothing and the amount.
pub proof fn lemma_portion_bounds(amount: int, bps: int)
    requires
        0 <= amount,
        0 <= bps <= MAX_BPS,
    ensures
        0 <= portion_of(amount, bps) <= amount,
        portion_of(amount, bps) * MAX_BPS <= amount * bps < (portion_of(amount, bps) + 1) * MAX_BPS,
        0 <= amount * bps <= amount * MAX_BPS,
{
    assert(0 <= amount * bps <= amount * 10_000) by (nonlinear_arith)
        requires
            0 <= amount,
            0 <= bps <= 10_000,
    ;
}

/// The first `count` portions together fall short of their exact part of `amount` by less than one
/// unit each.
pub proof fn lemma_sum_portions_bounds(amount: int, bps: Seq<u16>, count: nat)
    requires
        0 <= amount,
        count <= bps.len(),
        sum_bps(bps) <= MAX_BPS,
    ensures
        0 <= sum_portions(amount, bps, count),
        sum_portions(amount, bps, count) * MAX_BPS <= amount * sum_bps(bps.take(count as int)),
        amount * sum_bps(bps.take(count as int))
            <= (sum_portions(amount, bps, count) + count) * MAX_BPS,
        count > 0 ==> amount * sum_bps(bps.take(count as int))
            < (sum_portions(amount, bps, count) + count) * MAX_BPS,
        0 <= sum_bps(bps.take(count as int)) <= sum_bps(bps),
    decreases count,
{
    lemma_sum_bps_take(bps, count);
    if count == 0 {
        assert(sum_bps(bps.take(0)) == 0);
        assert(amount * 0 == 0) by (nonlinear_arith);
    } else {
        let before = (count - 1) as nat;
        lemma_sum_portions_bounds(amount, bps, before);
        lemma_sum_bps_take(bps, before);
        let prefix = bps.take(count as int);
        assert(prefix.drop_last() =~= bps.take(before as int));
        let b = bps[count - 1] as int;
        let s = sum_bps(bps.take(before as int));
        assert(sum_bps(prefix) == s + b);
        assert(amount * (s + b) == amount * s + amount * b) by (nonlinear_arith);
        lemma_portion_bounds(amount, b);
    }
}

/// A prefix of a list of percentages sums to no more than the whole list.
pub proof fn lemma_sum_bps_take(bps: Seq<u16>, count: nat)
    requires
        count <= bps.len(),
    ensures
        0 <= sum_bps(bps.take(count as int)) <= sum_bps(bps),
    decreases bps.len(),
{
    if count == bps.len() {
        assert(bps.take(count as int) =~= bps);
        if count > 0 {
            assert(bps.drop_last() =~= bps.take(count - 1));
            lemma_sum_bps_take(bps.drop_last(), (count - 1) as nat);
            assert(bps.drop_last().take(count - 1) =~= bps.drop_last());
        }
    } else {
        lemma_sum_bps_take(bps.drop_last(), count);
        assert(bps.drop_last().take(count as int) =~= bps.take(count as int));
    }
}

/// A prefix of a list of amounts sums to no more than the whole list.
pub proof fn lemma_sum_amounts_take(amounts: Seq<u64>, count: nat)
    requires
        count <= amounts.len(),
    ensures
        sum_amounts(amounts.take(count as int)) <= sum_amounts(amounts),
    decreases amounts.len(),
{
    if count == amounts.len() {
        assert(amounts.take(count as int) =~= amounts);
    } else {
        lemma_sum_amounts_take(amounts.drop_last(), count);
        assert(amounts.drop_last().take(count as int) =~= amounts.take(count as int));
    }
}

/// Each percentage of a list is at most the sum of the list.
pub proof fn lemma_bps_le_sum(bps: Seq<u16>, i: int)
    requires
        0 <= i < bps.len(),
    ensures
        bps[i] <= sum_bps(bps),
{
    lemma_sum_bps_take(bps, (i + 1) as nat);
    lemma_sum_bps_take(bps, i as nat);
    assert(bps.take(i + 1).drop_last() =~= bps.take(i));
}

/// Positive percentages sum to at least their number.
pub proof fn lemma_positive_sum(bps: Seq<u16>)
    requires
        forall|i: int| 0 <= i < bps.len() ==> bps[i] > 0,
    ensures
        sum_bps(bps) >= bps.len(),
    decreases bps.len(),
{
    if bps.len() > 0 {
        assert forall|i: int| 0 <= i < bps.drop_last().len() implies bps.drop_last()[i] > 0 by {
            assert(bps[i] > 0);
        }
        lemma_positive_sum(bps.drop_last());
    }
}

/// `bps` basis points of `amount`, rounded down.
pub fn portion(amount: u64, bps: u16) -> (part: u64)
    requires
        bps <= MAX_BPS,
    ensures
        part * 10_000 <= amount * bps < (part + 1) * 10_000,
        part == portion_of(amount as int, bps as int),
        part <= amount,
{
    proof {
        lemma_portion_bounds(amount as int, bps as int);
    }
    let scaled: u128 = (amount as u128) * (bps as u128);
    (scaled / (MAX_BPS as u128)) as u64
}

} // verus!
