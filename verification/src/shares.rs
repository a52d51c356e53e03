//! How a prize is split between winners, and how the protocol fee is taken
//! from a winner's share.

use vstd::prelude::*;

verus! {

/// Basis points in one whole.
pub const BPS_DENOMINATOR: i128 = 10_000i128;

/// Integer division rounding toward zero, as machine division does.
pub open spec fn trunc_div(x: int, d: int) -> int
    recommends
        d > 0,
{
    if x >= 0 {
        x / d
    } else {
        -((-x) / d)
    }
}

/// The share every winner but the first receives: the prize divided by the
/// number of winners, rounded toward zero.
pub open spec fn base_share(amount: int, winner_count: int) -> int {
    trunc_div(amount, winner_count)
}

/// Gross share of the winner at `index`: the first winner absorbs the
/// remainder of the division, every other winner gets the base share.
pub open spec fn gross_share(amount: int, winner_count: int, index: int) -> int {
    if index == 0 {
        amount - base_share(amount, winner_count) * (winner_count - 1)
    } else {
        base_share(amount, winner_count)
    }
}

/// Sum of the gross shares of the winners at indices `0 .. n`.
pub open spec fn shares_total(amount: int, winner_count: int, n: nat) -> int
    decreases n,
{
    if n == 0 {
        0
    } else {
        shares_total(amount, winner_count, (n - 1) as nat) + gross_share(
            amount,
            winner_count,
            n - 1,
        )
    }
}

/// Fee, in token units, taken from a gross share at `fee_bps` basis points
/// (rounded toward zero).
pub open spec fn fee_of(gross: int, fee_bps: int) -> int {
    trunc_div(gross * fee_bps, BPS_DENOMINATOR as int)
}

proof fn lemma_base_share_bounds(amount: int, winner_count: int)
    requires
        winner_count >= 1,
    ensures
        amount >= 0 ==> 0 <= base_share(amount, winner_count) * winner_count <= amount,
        amount >= 0 ==> 0 <= base_share(amount, winner_count) * (winner_count - 1) <= amount,
        amount >= 0 ==> 0 <= base_share(amount, winner_count) <= amount,
        amount < 0 ==> amount <= base_share(amount, winner_count) * winner_count <= 0,
        amount < 0 ==> amount <= base_share(amount, winner_count) * (winner_count - 1) <= 0,
        amount < 0 ==> amount <= base_share(amount, winner_count) <= 0,
{
    let b = base_share(amount, winner_count);
    if amount >= 0 {
        assert(0 <= (amount / winner_count) * winner_count <= amount) by (nonlinear_arith)
            requires
                amount >= 0,
                winner_count >= 1,
        {
            assert(amount == winner_count * (amount / winner_count) + amount % winner_count);
        }
        assert(0 <= b * (winner_count - 1) <= b * winner_count) by (nonlinear_arith)
            requires
                b >= 0,
                winner_count >= 1,
        ;
        assert(b <= b * winner_count) by (nonlinear_arith)
            requires
                b >= 0,
                winner_count >= 1,
        ;
    } else {
        let p = -amount;
        assert(0 <= (p / winner_count) * winner_count <= p) by (nonlinear_arith)
            requires
                p >= 0,
                winner_count >= 1,
        {
            assert(p == winner_count * (p / winner_count) + p % winner_count);
        }
        let q = p / winner_count;
        assert(b == -q);
        assert(0 <= q * (winner_count - 1) <= q * winner_count) by (nonlinear_arith)
            requires
                q >= 0,
                winner_count >= 1,
        ;
        assert(q <= q * winner_count) by (nonlinear_arith)
            requires
                q >= 0,
                winner_count >= 1,
        ;
        assert(b * winner_count == -(q * winner_count)) by (nonlinear_arith)
            requires
                b == -q,
        ;
        assert(b * (winner_count - 1) == -(q * (winner_count - 1))) by (nonlinear_arith)
            requires
                b == -q,
        ;
    }
}

/// Every gross share lies between zero and the whole prize, on the prize's side of zero.
pub proof fn lemma_gross_share_bounds(amount: int, winner_count: int, index: int)
    requires
        winner_count >= 1,
    ensures
        amount >= 0 ==> 0 <= gross_share(amount, winner_count, index) <= amount,
        amount < 0 ==> amount <= gross_share(amount, winner_count, index) <= 0,
{
    lemma_base_share_bounds(amount, winner_count);
}

/// The first `n` shares add up to the first winner's share plus `n - 1` base shares.
proof fn lemma_shares_total_closed_form(amount: int, winner_count: int, n: nat)
    requires
        winner_count >= 1,
        n >= 1,
    ensures
        shares_total(amount, winner_count, n) == gross_share(amount, winner_count, 0) + (n - 1)
            * base_share(amount, winner_count),
    decreases n,
{
    if n == 1 {
        assert(shares_total(amount, winner_count, 0) == 0);
    } else {
        lemma_shares_total_closed_form(amount, winner_count, (n - 1) as nat);
        let b = base_share(amount, winner_count);
        assert((n - 2) * b + b == (n - 1) * b) by (nonlinear_arith);
    }
}

/// Splitting a prize loses nothing: the gross shares of all `winner_count`
/// winners add up to exactly the prize.
pub proof fn lemma_shares_sum_to_amount(amount: int, winner_count: int)
    requires
        winner_count >= 1,
    ensures
        shares_total(amount, winner_count, winner_count as nat) == amount,
{
    lemma_shares_total_closed_form(amount, winner_count, winner_count as nat);
    let b = base_share(amount, winner_count);
    assert((winner_count - 1) * b == b * (winner_count - 1)) by (nonlinear_arith);
}

/// Any first `n <= winner_count` shares add up to at most the prize, on the prize's side of zero.
pub proof fn lemma_shares_prefix_bounds(amount: int, winner_count: int, n: nat)
    requires
        winner_count >= 1,
        n <= winner_count,
    ensures
        amount >= 0 ==> 0 <= shares_total(amount, winner_count, n) <= amount,
        amount < 0 ==> amount <= shares_total(amount, winner_count, n) <= 0,
{
    lemma_base_share_bounds(amount, winner_count);
    if n >= 1 {
        lemma_shares_total_closed_form(amount, winner_count, n);
        let b = base_share(amount, winner_count);
        if amount >= 0 {
            assert(0 <= (n - 1) * b <= (winner_count - 1) * b) by (nonlinear_arith)
                requires
                    b >= 0,
                    1 <= n <= winner_count,
            ;
        } else {
            assert((winner_count - 1) * b <= (n - 1) * b <= 0) by (nonlinear_arith)
                requires
                    b <= 0,
                    1 <= n <= winner_count,
            ;
        }
    }
}

/// Gross share of the winner at `index` in a prize of `amount` split between
/// `winner_count` winners; the winner at index 0 absorbs the remainder.
pub fn winner_gross_share(amount: i128, winner_count: u32, index: u32) -> (share: i128)
    requires
        winner_count >= 1,
    ensures
        share == gross_share(amount as int, winner_count as int, index as int),
{
    let wc = winner_count as i128;
    proof {
        lemma_base_share_bounds(amount as int, wc as int);
    }
    let base = match amount.checked_div(wc) {
        Some(b) => b,
        None => 0,
    };
    assert(base == base_share(amount as int, wc as int));
    if index == 0 {
        amount - base * (wc - 1)
    } else {
        base
    }
}

/// Fee and net payout of a gross share at `fee_bps` basis points, as
/// `Some((fee, net))`; `None` when `gross * fee_bps` does not fit in an `i128`.
pub fn split_fee(gross: i128, fee_bps: u32) -> (r: Option<(i128, i128)>)
    ensures
        match r {
            Some((fee, net)) => {
                &&& i128::MIN <= gross * fee_bps <= i128::MAX
                &&& fee == fee_of(gross as int, fee_bps as int)
                &&& net == gross - fee
            },
            None => !(i128::MIN <= gross * fee_bps <= i128::MAX),
        },
{
    let scaled = match gross.checked_mul(fee_bps as i128) {
        Some(v) => v,
        None => {
            return None;
        },
    };
    let fee = match scaled.checked_div(BPS_DENOMINATOR) {
        Some(f) => f,
        None => 0,
    };
    proof {
        let s = scaled as int;
        if s >= 0 {
            assert(0 <= s / 10000 <= s) by (nonlinear_arith)
                requires
                    s >= 0,
            ;
        } else {
            assert(0 <= (-s) / 10000 <= -s) by (nonlinear_arith)
                requires
                    s < 0,
            ;
        }
        assert(fee == fee_of(gross as int, fee_bps as int));
        if gross >= 0 {
            assert(s >= 0) by (nonlinear_arith)
                requires
                    s == gross * fee_bps,
                    gross >= 0,
                    fee_bps >= 0,
            ;
        } else {
            assert(s <= 0) by (nonlinear_arith)
                requires
                    s == gross * fee_bps,
                    gross < 0,
                    fee_bps >= 0,
            ;
        }
    }
    Some((fee, gross - fee))
}

/// The fee and the net payout together make up exactly the gross share, and at
/// a rate of at most 100% neither part is negative for a non-negative share.
pub proof fn lemma_fee_split_conserves(gross: int, fee_bps: int)
    requires
        0 <= fee_bps <= BPS_DENOMINATOR,
    ensures
        fee_of(gross, fee_bps) + (gross - fee_of(gross, fee_bps)) == gross,
        gross >= 0 ==> 0 <= fee_of(gross, fee_bps) <= gross,
        gross >= 0 ==> 0 <= gross - fee_of(gross, fee_bps) <= gross,
        gross < 0 ==> gross <= fee_of(gross, fee_bps) <= 0,
        fee_bps == 0 ==> fee_of(gross, fee_bps) == 0,
{
    if gross < 0 {
        let m = (-gross) * fee_bps;
        assert(0 <= m <= (-gross) * 10000) by (nonlinear_arith)
            requires
                gross < 0,
                0 <= fee_bps <= 10000,
                m == (-gross) * fee_bps,
        ;
        assert(0 <= m / 10000 <= -gross) by (nonlinear_arith)
            requires
                0 <= m <= (-gross) * 10000,
        ;
        assert(gross * fee_bps == -m) by (nonlinear_arith)
            requires
                m == (-gross) * fee_bps,
        ;
    }
    if gross >= 0 {
        let s = gross * fee_bps;
        assert(0 <= s <= gross * 10000) by (nonlinear_arith)
            requires
                gross >= 0,
                0 <= fee_bps <= 10000,
                s == gross * fee_bps,
        ;
        assert(0 <= s / 10000 <= gross) by (nonlinear_arith)
            requires
                0 <= s <= gross * 10000,
        ;
    }
    if fee_bps == 0 {
        assert(gross * fee_bps == 0) by (nonlinear_arith)
            requires
                fee_bps == 0,
        ;
    }
}

/// Sum of the gross shares of the winners among `winners[0 .. n]` who have not
/// claimed (are not in `claimed`).
pub open spec fn unclaimed_total(
    amount: int,
    winner_count: int,
    winners: Seq<u64>,
    claimed: Seq<u64>,
    n: nat,
) -> int
    decreases n,
{
    if n == 0 {
        0
    } else {
        unclaimed_total(amount, winner_count, winners, claimed, (n - 1) as nat) + if claimed.contains(
            winners[n - 1],
        ) {
            0
        } else {
            gross_share(amount, winner_count, n - 1)
        }
    }
}

/// Sum of the gross shares of the winners among `winners[0 .. n]` who have claimed.
pub open spec fn claimed_total(
    amount: int,
    winner_count: int,
    winners: Seq<u64>,
    claimed: Seq<u64>,
    n: nat,
) -> int
    decreases n,
{
    if n == 0 {
        0
    } else {
        claimed_total(amount, winner_count, winners, claimed, (n - 1) as nat) + if claimed.contains(
            winners[n - 1],
        ) {
            gross_share(amount, winner_count, n - 1)
        } else {
            0
        }
    }
}

/// Claimed and unclaimed shares of any prefix of the winners partition that prefix's shares.
pub proof fn lemma_claimed_unclaimed_partition(
    amount: int,
    winner_count: int,
    winners: Seq<u64>,
    claimed: Seq<u64>,
    n: nat,
)
    ensures
        claimed_total(amount, winner_count, winners, claimed, n) + unclaimed_total(
            amount,
            winner_count,
            winners,
            claimed,
            n,
        ) == shares_total(amount, winner_count, n),
    decreases n,
{
    if n > 0 {
        lemma_claimed_unclaimed_partition(amount, winner_count, winners, claimed, (n - 1) as nat);
    }
}

/// Claimed shares plus recoverable shares make up exactly the prize, when every
/// winner slot is filled.
pub proof fn lemma_recovery_complements_claims(
    amount: int,
    winner_count: int,
    winners: Seq<u64>,
    claimed: Seq<u64>,
)
    requires
        winner_count >= 1,
        winners.len() == winner_count,
    ensures
        claimed_total(amount, winner_count, winners, claimed, winners.len()) + unclaimed_total(
            amount,
            winner_count,
            winners,
            claimed,
            winners.len(),
        ) == amount,
{
    lemma_claimed_unclaimed_partition(amount, winner_count, winners, claimed, winners.len());
    lemma_shares_sum_to_amount(amount, winner_count);
}

/// Any prefix sum of unclaimed shares lies between zero and the prize.
pub proof fn lemma_unclaimed_prefix_bounds(
    amount: int,
    winner_count: int,
    winners: Seq<u64>,
    claimed: Seq<u64>,
    n: nat,
)
    requires
        winner_count >= 1,
        n <= winner_count,
    ensures
        amount >= 0 ==> 0 <= unclaimed_total(amount, winner_count, winners, claimed, n)
            <= shares_total(amount, winner_count, n) <= amount,
        amount < 0 ==> amount <= shares_total(amount, winner_count, n) <= unclaimed_total(
            amount,
            winner_count,
            winners,
            claimed,
            n,
        ) <= 0,
    decreases n,
{
    lemma_shares_prefix_bounds(amount, winner_count, n);
    if n > 0 {
        lemma_unclaimed_prefix_bounds(amount, winner_count, winners, claimed, (n - 1) as nat);
        lemma_gross_share_bounds(amount, winner_count, n - 1);
    }
}

} // verus!
