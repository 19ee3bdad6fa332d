//! The weight engine: a depositor's reward weight from join rank and contribution.
use vstd::prelude::*;

use crate::zap::min_int;

verus! {

/// Scale of the rank weight: the first depositor's rank weight.
pub const RANK_SCALE: u128 = 100_000_000;

/// Scale of the contribution weight and of the score: one whole.
pub const WEIGHT_SCALE: i128 = 10_000;

/// `b` to the power `e`.
pub open spec fn pow_of(b: int, e: nat) -> int
    decreases e,
{
    if e == 0 {
        1
    } else {
        b * pow_of(b, (e - 1) as nat)
    }
}

proof fn lemma_pow_grows(b: int, i: nat, j: nat)
    requires
        1 <= b,
        i <= j,
    ensures
        1 <= pow_of(b, i) <= pow_of(b, j),
    decreases j,
{
    if j > i {
        lemma_pow_grows(b, i, (j - 1) as nat);
        let p = pow_of(b, (j - 1) as nat);
        assert(p <= b * p) by (nonlinear_arith) requires 1 <= b, 1 <= p;
    } else if j > 0 {
        lemma_pow_grows(b, (i - 1) as nat, (j - 1) as nat);
        let p = pow_of(b, (j - 1) as nat);
        assert(1 <= b * p) by (nonlinear_arith) requires 1 <= b, 1 <= p;
    }
}

/// `floor(10^8 / rank^gamma)`; zero for rank zero.
pub open spec fn rank_weight_of(rank: int, gamma: nat) -> int {
    if rank == 0 {
        0
    } else {
        RANK_SCALE as int / pow_of(rank, gamma)
    }
}

/// `min(10000, floor(deposit * 10000 / target))`, zero unless both are positive.
pub open spec fn contribution_weight_of(deposit: int, target: int) -> int {
    if target <= 0 || deposit <= 0 {
        0
    } else {
        min_int(WEIGHT_SCALE as int, deposit * WEIGHT_SCALE / target)
    }
}

/// `floor(rank_weight * contribution_weight / 10000)`, zero when the product
/// does not fit in 128 bits.
pub open spec fn score_of(rank_weight: int, contrib_weight: int) -> int {
    if rank_weight * contrib_weight > i128::MAX {
        0
    } else {
        rank_weight * contrib_weight / WEIGHT_SCALE as int
    }
}

/// The reward weight of a depositor at `rank` who brought `lp` against a target of
/// `target`, with rank decay `gamma`.
pub open spec fn weight_of(rank: int, gamma: nat, lp: int, target: int) -> int {
    score_of(rank_weight_of(rank, gamma), contribution_weight_of(lp, target))
}

/// Rank-based decay weight: `floor(10^8 / rank^gamma)`, and zero for rank zero.
pub fn compute_rank_weight(rank: u32, gamma: u32) -> (r: i128)
    ensures
        r == rank_weight_of(rank as int, gamma as nat),
        0 <= r <= RANK_SCALE,
{
    if rank == 0 {
        return 0;
    }
    if rank == 1 {
        proof {
            assert forall|e: nat| pow_of(1, e) == 1 by {
                lemma_pow_one(e);
            }
        }
        return RANK_SCALE as i128;
    }
    let mut p: u128 = 1;
    let mut i: u32 = 0;
    while i < gamma
        invariant
            2 <= rank,
            i <= gamma,
            p == pow_of(rank as int, i as nat),
            p <= RANK_SCALE,
        decreases gamma - i,
    {
        assert(p * rank <= RANK_SCALE * 0x1_0000_0000) by (nonlinear_arith)
            requires p <= RANK_SCALE, rank <= 0xffff_ffff;
        assert(pow_of(rank as int, (i + 1) as nat) == p * rank) by (nonlinear_arith)
            requires pow_of(rank as int, (i + 1) as nat) == rank * pow_of(rank as int, i as nat),
                p == pow_of(rank as int, i as nat);
        p = p * rank as u128;
        i = i + 1;
        if p > RANK_SCALE {
            proof {
                lemma_pow_grows(rank as int, i as nat, gamma as nat);
                let x = pow_of(rank as int, gamma as nat);
                assert(RANK_SCALE as int / x == 0) by (nonlinear_arith)
                    requires x > RANK_SCALE as int;
            }
            return 0;
        }
    }
    proof {
        lemma_pow_grows(rank as int, 0, gamma as nat);
    }
    (RANK_SCALE / p) as i128
}

proof fn lemma_pow_one(e: nat)
    ensures
        pow_of(1, e) == 1,
    decreases e,
{
    if e > 0 {
        lemma_pow_one((e - 1) as nat);
    }
}

/// `floor(c * k / t)` for `c < t`, by adding `c` one time at a time.
fn mul_div_below(c: u128, k: u32, t: u128) -> (q: u128)
    requires
        c < t,
        t <= i128::MAX,
    ensures
        q == c as int * k as int / t as int,
{
    let mut q: u128 = 0;
    let mut rem: u128 = 0;
    let mut m: u32 = 0;
    while m < k
        invariant
            c < t <= i128::MAX,
            m <= k,
            q <= m,
            rem < t,
            q * t + rem == c * m,
        decreases k - m,
    {
        let ghost q0 = q;
        let ghost m0 = m;
        rem = rem + c;
        if rem >= t {
            rem = rem - t;
            q = q + 1;
            assert((q0 + 1) * t == q0 * t + t) by (nonlinear_arith);
        }
        m = m + 1;
        assert(c * m == c * m0 + c) by (nonlinear_arith) requires m == m0 + 1;
    }
    assert(q == c as int * k as int / t as int) by (nonlinear_arith)
        requires
            q * t + rem == c * k,
            0 <= rem < t;
    q
}

/// Contribution weight: `min(10000, floor(deposit * 10000 / target))`, and zero
/// unless both are positive.
pub fn compute_contribution_weight(deposit: i128, target: i128) -> (r: i128)
    ensures
        r == contribution_weight_of(deposit as int, target as int),
        0 <= r <= WEIGHT_SCALE,
{
    if target <= 0 || deposit <= 0 {
        return 0;
    }
    if deposit >= target {
        assert(deposit as int * WEIGHT_SCALE as int / target as int >= WEIGHT_SCALE) by (nonlinear_arith)
            requires deposit >= target, target > 0;
        return WEIGHT_SCALE;
    }
    let q = mul_div_below(deposit as u128, WEIGHT_SCALE as u32, target as u128);
    assert(q < WEIGHT_SCALE) by (nonlinear_arith)
        requires q == deposit as int * 10000 / target as int, deposit < target, 0 < deposit;
    q as i128
}

/// Score: `floor(rank_weight * contrib_weight / 10000)`, zero when the product
/// does not fit in 128 bits.
pub fn compute_score(rank_weight: i128, contrib_weight: i128) -> (r: i128)
    requires
        0 <= rank_weight,
        0 <= contrib_weight,
    ensures
        r == score_of(rank_weight as int, contrib_weight as int),
        0 <= r,
{
    match rank_weight.checked_mul(contrib_weight) {
        Some(p) => {
            assert(p >= 0) by (nonlinear_arith)
                requires p == rank_weight * contrib_weight, 0 <= rank_weight, 0 <= contrib_weight;
            p / WEIGHT_SCALE
        },
        None => {
            assert(rank_weight * contrib_weight >= 0) by (nonlinear_arith)
                requires 0 <= rank_weight, 0 <= contrib_weight;
            0
        },
    }
}

} // verus!
