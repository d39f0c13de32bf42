use vstd::prelude::*;
use crate::contract::state::bps_total;
use crate::contract::types::{Address, BeneficiaryEntry, Transfer};

verus! {

/// A beneficiary's proportional share of `amount`, rounded down.
pub open spec fn bps_share(amount: int, bps: int) -> int {
    amount * bps / 10_000
}

/// The total of the rounded-down shares of the first `k` beneficiaries.
pub open spec fn shares_before(amount: int, bens: Seq<BeneficiaryEntry>, k: int) -> int
    decreases k,
{
    if k <= 0 {
        0
    } else {
        shares_before(amount, bens, k - 1) + bps_share(amount, bens[k - 1].bps as int)
    }
}

/// The share of beneficiary `i`: its proportional share, except that the last
/// beneficiary receives whatever the others did not.
pub open spec fn entry_share(amount: int, bens: Seq<BeneficiaryEntry>, i: int) -> int {
    if i == bens.len() - 1 {
        amount - shares_before(amount, bens, i)
    } else {
        bps_share(amount, bens[i].bps as int)
    }
}

/// The transfers to the first `k` beneficiaries; a zero share moves nothing.
pub open spec fn split_transfers(token: Address, from: Address, amount: int, bens: Seq<BeneficiaryEntry>, k: int) -> Seq<Transfer>
    decreases k,
{
    if k <= 0 {
        Seq::empty()
    } else {
        let prev = split_transfers(token, from, amount, bens, k - 1);
        let share = entry_share(amount, bens, k - 1);
        if share > 0 {
            prev.push(Transfer { token, from, to: bens[k - 1].address, amount: share as i128 })
        } else {
            prev
        }
    }
}

/// The transfers that pay out `amount`: all of it to the primary beneficiary
/// when no split is configured, otherwise split by basis points.
pub open spec fn payout_transfers(token: Address, from: Address, primary: Address, amount: int, bens: Seq<BeneficiaryEntry>) -> Seq<Transfer> {
    if bens.len() == 0 {
        seq![Transfer { token, from, to: primary, amount: amount as i128 }]
    } else {
        split_transfers(token, from, amount, bens, bens.len() as int)
    }
}

/// Well-formed split: every share and the total at most 100%.
pub open spec fn split_wf(bens: Seq<BeneficiaryEntry>) -> bool {
    &&& bps_total(bens) <= 10_000
    &&& forall|i: int| 0 <= i < bens.len() ==> #[trigger] bens[i].bps <= 10_000
}

proof fn lemma_floor_sum(p: int, q: int)
    requires
        p >= 0,
        q >= 0,
    ensures
        p / 10_000 + q / 10_000 <= (p + q) / 10_000,
{
    assert(p / 10_000 + q / 10_000 <= (p + q) / 10_000) by (nonlinear_arith)
        requires p >= 0, q >= 0;
}

proof fn lemma_share_monotone(a: int, x: int, y: int)
    requires
        a >= 0,
        0 <= x <= y,
    ensures
        a * x / 10_000 <= a * y / 10_000,
        a * x >= 0,
{
    assert(a * x <= a * y) by (nonlinear_arith)
        requires a >= 0, x <= y;
    assert(a * x >= 0) by (nonlinear_arith)
        requires a >= 0, x >= 0;
    vstd::arithmetic::div_mod::lemma_div_is_ordered(a * x, a * y, 10_000);
}

/// The first `k` rounded shares add up to at most the share of their total basis points.
proof fn lemma_shares_before_bound(amount: int, bens: Seq<BeneficiaryEntry>, k: int)
    requires
        amount >= 0,
        0 <= k <= bens.len(),
    ensures
        0 <= shares_before(amount, bens, k) <= amount * bps_total(bens.subrange(0, k)) / 10_000,
        bps_total(bens.subrange(0, k)) >= 0,
    decreases k,
{
    if k > 0 {
        lemma_shares_before_bound(amount, bens, k - 1);
        let pre = bens.subrange(0, k - 1);
        assert(bens.subrange(0, k).drop_last() =~= pre);
        let b = bens[k - 1].bps as int;
        let t = bps_total(pre);
        lemma_share_monotone(amount, 0, t);
        lemma_share_monotone(amount, 0, b);
        lemma_floor_sum(amount * t, amount * b);
        assert(amount * t + amount * b == amount * (t + b)) by (nonlinear_arith);
    }
}

/// With at most 100% allocated, the first `k` shares add up to at most `amount`.
pub proof fn lemma_shares_before_le_amount(amount: int, bens: Seq<BeneficiaryEntry>, k: int)
    requires
        amount >= 0,
        0 <= k <= bens.len(),
        split_wf(bens),
    ensures
        0 <= shares_before(amount, bens, k) <= amount,
{
    lemma_shares_before_bound(amount, bens, k);
    lemma_bps_total_prefix(bens, k);
    lemma_share_monotone(amount, bps_total(bens.subrange(0, k)), 10_000);
    assert(amount * 10_000 / 10_000 == amount) by (nonlinear_arith);
}

proof fn lemma_bps_total_prefix(bens: Seq<BeneficiaryEntry>, k: int)
    requires
        0 <= k <= bens.len(),
    ensures
        0 <= bps_total(bens.subrange(0, k)) <= bps_total(bens),
    decreases bens.len(),
{
    if k < bens.len() {
        assert(bens.subrange(0, k) =~= bens.drop_last().subrange(0, k));
        lemma_bps_total_prefix(bens.drop_last(), k);
    } else {
        assert(bens.subrange(0, k) =~= bens);
        lemma_bps_total_nonneg(bens);
    }
}

proof fn lemma_bps_total_nonneg(bens: Seq<BeneficiaryEntry>)
    ensures
        bps_total(bens) >= 0,
    decreases bens.len(),
{
    if bens.len() > 0 {
        lemma_bps_total_nonneg(bens.drop_last());
    }
}

/// The rounded-down share `amount * bps / 10000`, computed without overflow.
pub fn share_of(amount: i128, bps: u32) -> (r: i128)
    requires
        amount >= 0,
        bps <= 10_000,
    ensures
        r == bps_share(amount as int, bps as int),
        0 <= r <= amount,
{
    let q: i128 = amount / 10_000;
    let rem: i128 = amount % 10_000;
    let b: i128 = bps as i128;
    assert(q * b <= amount) by (nonlinear_arith)
        requires q == amount / 10_000, amount >= 0, 0 <= b <= 10_000;
    assert(q * b >= 0) by (nonlinear_arith)
        requires q >= 0, b >= 0;
    assert(0 <= rem * b <= 100_000_000) by (nonlinear_arith)
        requires 0 <= rem < 10_000, 0 <= b <= 10_000;
    assert(q * b + rem <= amount) by (nonlinear_arith)
        requires q == amount / 10_000, rem == amount % 10_000, amount >= 0, 0 <= b <= 10_000;
    assert((rem * b) / 10_000 <= rem) by (nonlinear_arith)
        requires 0 <= rem < 10_000, 0 <= b <= 10_000;
    let r: i128 = q * b + (rem * b) / 10_000;
    assert(r == amount * b / 10_000) by (nonlinear_arith)
        requires
            q == amount / 10_000,
            rem == amount % 10_000,
            amount >= 0,
            b >= 0,
            r == q * b + (rem * b) / 10_000;
    proof {
        lemma_share_monotone(amount as int, b as int, 10_000);
        assert(amount * 10_000 / 10_000 == amount) by (nonlinear_arith);
    }
    r
}

/// The transfers that pay `amount` out of `from`: to the primary beneficiary
/// when no split is configured, otherwise split by basis points with the last
/// beneficiary absorbing the rounding remainder.
pub fn payout(token: Address, from: Address, primary: Address, amount: i128, bens: &Vec<BeneficiaryEntry>) -> (t: Vec<Transfer>)
    requires
        amount >= 0,
        split_wf(bens@),
    ensures
        t@ == payout_transfers(token, from, primary, amount as int, bens@),
{
    let mut t: Vec<Transfer> = Vec::new();
    if bens.len() == 0 {
        t.push(Transfer { token, from, to: primary, amount });
        assert(t@ =~= payout_transfers(token, from, primary, amount as int, bens@));
        return t;
    }
    let n = bens.len();
    let mut distributed: i128 = 0;
    let mut i: usize = 0;
    while i < n
        invariant
            n == bens@.len(),
            n > 0,
            i <= n,
            amount >= 0,
            split_wf(bens@),
            i < n ==> distributed == shares_before(amount as int, bens@, i as int),
            0 <= distributed <= amount,
            t@ == split_transfers(token, from, amount as int, bens@, i as int),
        decreases n - i,
    {
        let entry = bens[i];
        let share: i128 = if i == n - 1 {
            amount - distributed
        } else {
            share_of(amount, entry.bps)
        };
        proof {
            assert(bens@[i as int].bps <= 10_000);
        }
        if share > 0 {
            t.push(Transfer { token, from, to: entry.address, amount: share });
        }
        proof {
            lemma_shares_before_le_amount(amount as int, bens@, i + 1);
        }
        distributed = if i == n - 1 { amount } else { distributed + share };
        if i < n - 1 {
            assert(distributed == shares_before(amount as int, bens@, i + 1));
        } else {
            proof {
                lemma_shares_before_le_amount(amount as int, bens@, i + 1);
            }
        }
        i = i + 1;
    }
    t
}

} // verus!
