//! The fee split ("zap"), the pool's swap output formulas and the
//! safe-emission cap.
use vstd::prelude::*;

use crate::math::{int_sqrt, isqrt, lemma_isqrt};

verus! {

/// Basis points in one whole.
pub const MAX_BPS: u32 = 10_000;

pub open spec fn min_int(a: int, b: int) -> int {
    if a <= b { a } else { b }
}

/// The frictionless break-even swap size: `floor(sqrt(ru0 * (ru0 + fee))) - ru0`.
pub open spec fn s_min_of(fee: int, ru0: int) -> int {
    isqrt((ru0 * (ru0 + fee)) as nat) - ru0
}

/// How much of the fee is swapped: the break-even size plus the surplus, at most the fee.
pub open spec fn swap_amount_of(fee: int, ru0: int, bps: int) -> int {
    min_int(s_min_of(fee, ru0) + fee * bps / 10000, fee)
}

/// The fee split can be computed in 128-bit arithmetic.
pub open spec fn split_fits(fee: int, ru0: int, bps: int) -> bool {
    &&& 0 < fee
    &&& 0 <= ru0
    &&& 0 <= bps
    &&& ru0 * (ru0 + fee) <= u128::MAX
    &&& fee * bps <= i128::MAX
}

/// The result of splitting a fee.
#[derive(Clone, Copy, Debug, PartialEq, Eq, Structural)]
pub struct FeeSplit {
    pub s_min: i128,
    pub swap_amount: i128,
    pub liquidity_amount: i128,
}

proof fn lemma_s_min_bounds(fee: int, ru0: int)
    requires
        0 < fee,
        0 <= ru0,
    ensures
        0 <= s_min_of(fee, ru0) <= fee,
{
    let n = ru0 * (ru0 + fee);
    assert(n >= 0) by (nonlinear_arith) requires 0 < fee, 0 <= ru0, n == ru0 * (ru0 + fee);
    lemma_isqrt(n as nat);
    let r = isqrt(n as nat) as int;
    if r < ru0 {
        assert((r + 1) * (r + 1) <= ru0 * ru0) by (nonlinear_arith) requires 0 <= r, r + 1 <= ru0;
        assert(ru0 * ru0 <= n) by (nonlinear_arith) requires 0 < fee, 0 <= ru0, n == ru0 * (ru0 + fee);
    }
    if r > ru0 + fee {
        assert((ru0 + fee) * (ru0 + fee) < r * r) by (nonlinear_arith) requires 0 <= ru0 + fee, ru0 + fee < r;
        assert(n <= (ru0 + fee) * (ru0 + fee)) by (nonlinear_arith) requires 0 < fee, 0 <= ru0, n == ru0 * (ru0 + fee);
    }
}

/// Splits a fee of `fee` stable units, against a stable reserve of `ru0`, into the
/// part to swap and the part to add as liquidity, over-swapping by `bps` basis
/// points of the fee. `None` when the arithmetic does not fit in 128 bits.
pub fn split_fee(fee: i128, ru0: i128, bps: u32) -> (r: Option<FeeSplit>)
    ensures
        r is Some <==> split_fits(fee as int, ru0 as int, bps as int),
        r matches Some(p) ==> {
            &&& p.s_min == s_min_of(fee as int, ru0 as int)
            &&& p.swap_amount == swap_amount_of(fee as int, ru0 as int, bps as int)
            &&& p.liquidity_amount == fee - p.swap_amount
            &&& 0 <= p.s_min <= p.swap_amount <= fee
        },
{
    if fee <= 0 || ru0 < 0 {
        return None;
    }
    let sum: u128 = ru0 as u128 + fee as u128;
    let prod = match (ru0 as u128).checked_mul(sum) {
        Some(v) => v,
        None => return None,
    };
    let extra_num = match fee.checked_mul(bps as i128) {
        Some(v) => v,
        None => return None,
    };
    proof {
        lemma_s_min_bounds(fee as int, ru0 as int);
        assert(extra_num >= 0) by (nonlinear_arith) requires extra_num == fee * bps, fee > 0;
    }
    let root = int_sqrt(prod);
    let s_min: i128 = (root - ru0 as u128) as i128;
    let extra: i128 = extra_num / (MAX_BPS as i128);
    let swap_amount: i128 = if extra >= fee - s_min {
        fee
    } else {
        s_min + extra
    };
    Some(FeeSplit { s_min, swap_amount, liquidity_amount: fee - swap_amount })
}

/// The fee the pool keeps on an input of `a`: three in a thousand, rounded up.
pub open spec fn pool_fee_of(a: int) -> int {
    (3 * a + 999) / 1000
}

/// What the pool pays out, fee included, for `a` in against reserves `(r_in, r_out)`.
pub open spec fn swap_output_of(a: int, r_in: int, r_out: int) -> int {
    let net = a - pool_fee_of(a);
    net * r_out / (r_in + net)
}

/// The fee-inclusive swap output can be computed in 128-bit arithmetic.
pub open spec fn swap_output_fits(a: int, r_in: int, r_out: int) -> bool {
    let net = a - pool_fee_of(a);
    &&& 0 <= a
    &&& 0 <= r_in
    &&& 0 <= r_out
    &&& 3 * a <= i128::MAX
    &&& net * r_out <= i128::MAX
    &&& r_in + net <= i128::MAX
    &&& 0 < r_in + net
}

/// Output of a swap of `a_in` against reserves `(r_in, r_out)` with the pool's
/// 0.3% fee taken from the input (rounded up). `None` when the arithmetic does not
/// fit or the pool is empty.
pub fn swap_output(a_in: i128, r_in: i128, r_out: i128) -> (r: Option<i128>)
    ensures
        r is Some <==> swap_output_fits(a_in as int, r_in as int, r_out as int),
        r matches Some(out) ==> out == swap_output_of(a_in as int, r_in as int, r_out as int),
{
    if a_in < 0 || r_in < 0 || r_out < 0 {
        return None;
    }
    let tripled = match a_in.checked_mul(3) {
        Some(v) => v,
        None => return None,
    };
    let fee: i128 = if tripled % 1000 != 0 {
        tripled / 1000 + 1
    } else {
        tripled / 1000
    };
    assert(fee == pool_fee_of(a_in as int));
    let net_in: i128 = a_in - fee;
    assert(0 <= net_in <= a_in) by {
        assert(fee <= a_in) by (nonlinear_arith) requires fee == (3 * a_in + 999) / 1000, a_in >= 0;
    }
    let n = match net_in.checked_mul(r_out) {
        Some(v) => v,
        None => return None,
    };
    let d = match r_in.checked_add(net_in) {
        Some(v) => v,
        None => return None,
    };
    if d == 0 {
        return None;
    }
    assert(n >= 0) by (nonlinear_arith) requires n == net_in * r_out, net_in >= 0, r_out >= 0;
    Some(n / d)
}

/// Everything decided about a campaign's fee before the swap and the deposit.
#[derive(Clone, Copy, Debug, PartialEq, Eq, Structural)]
pub struct ZapPlan {
    pub s_min: i128,
    pub swap_amount: i128,
    pub liquidity_amount: i128,
    /// Reward asset the swap pays out.
    pub flash_out: i128,
    pub reserve_usdc_after_swap: i128,
    pub reserve_flash_after_swap: i128,
    /// Reward asset to deposit beside `liquidity_amount`, at the post-swap ratio.
    pub flash_needed: i128,
}

/// The plan for a fee of `fee` against a pool with reserves `(ru0, rf0)` (stable,
/// reward) and a surplus of `bps` basis points; `None` where the arithmetic does
/// not fit or the swap would pay out nothing or the whole reward reserve.
pub open spec fn plan_of(fee: int, ru0: int, rf0: int, bps: int) -> Option<ZapPlan> {
    if !split_fits(fee, ru0, bps) {
        None
    } else {
        let swap = swap_amount_of(fee, ru0, bps);
        let liq = fee - swap;
        if !swap_output_fits(swap, ru0, rf0) {
            None
        } else {
            let out = swap_output_of(swap, ru0, rf0);
            let ru_ps = ru0 + swap;
            let rf_ps = rf0 - out;
            if !(0 < out && out < rf0) || ru_ps > i128::MAX || ru_ps <= 0 || liq * rf_ps
                > i128::MAX {
                None
            } else {
                Some(
                    ZapPlan {
                        s_min: s_min_of(fee, ru0) as i128,
                        swap_amount: swap as i128,
                        liquidity_amount: liq as i128,
                        flash_out: out as i128,
                        reserve_usdc_after_swap: ru_ps as i128,
                        reserve_flash_after_swap: rf_ps as i128,
                        flash_needed: (liq * rf_ps / ru_ps) as i128,
                    },
                )
            }
        }
    }
}

/// Plans a campaign's fee: the split, the fee-inclusive swap output, the
/// post-swap reserves and the reward asset the balanced deposit needs.
pub fn plan_zap(fee: i128, ru0: i128, rf0: i128, bps: u32) -> (r: Option<ZapPlan>)
    ensures
        r == plan_of(fee as int, ru0 as int, rf0 as int, bps as int),
{
    let split = match split_fee(fee, ru0, bps) {
        Some(p) => p,
        None => return None,
    };
    let flash_out = match swap_output(split.swap_amount, ru0, rf0) {
        Some(v) => v,
        None => return None,
    };
    if !(0 < flash_out && flash_out < rf0) {
        return None;
    }
    let ru_ps = match ru0.checked_add(split.swap_amount) {
        Some(v) => v,
        None => return None,
    };
    if ru_ps <= 0 {
        return None;
    }
    let rf_ps: i128 = rf0 - flash_out;
    let n = match split.liquidity_amount.checked_mul(rf_ps) {
        Some(v) => v,
        None => return None,
    };
    proof {
        assert(n >= 0) by (nonlinear_arith)
            requires n == split.liquidity_amount * rf_ps, split.liquidity_amount >= 0, rf_ps > 0;
    }
    Some(
        ZapPlan {
            s_min: split.s_min,
            swap_amount: split.swap_amount,
            liquidity_amount: split.liquidity_amount,
            flash_out,
            reserve_usdc_after_swap: ru_ps,
            reserve_flash_after_swap: rf_ps,
            flash_needed: n / ru_ps,
        },
    )
}

/// The reward reserve that keeps the pre-campaign price at the new stable reserve:
/// `floor(sqrt(ru1 * rf1 * rf0 / ru0))`.
pub open spec fn emission_root_of(ru0: int, rf0: int, ru1: int, rf1: int) -> int {
    isqrt((ru1 * rf1 * rf0 / ru0) as nat) as int
}

/// The most reward asset that may still enter the pool: `max(root - rf1, 0)`.
pub open spec fn x_max_of(ru0: int, rf0: int, ru1: int, rf1: int) -> int {
    let root = emission_root_of(ru0, rf0, ru1, rf1);
    if root > rf1 {
        root - rf1
    } else {
        0
    }
}

/// The cap can be computed in 128-bit arithmetic.
pub open spec fn cap_fits(ru0: int, rf0: int, ru1: int, rf1: int) -> bool {
    &&& 0 < ru0
    &&& 0 <= rf0
    &&& 0 <= ru1
    &&& 0 <= rf1
    &&& ru1 * rf1 <= u128::MAX
    &&& ru1 * rf1 * rf0 <= u128::MAX
}

/// The reward budget a campaign may promise: the realized `surplus` of reward
/// asset, capped by what keeps the pool's price no worse than before the campaign
/// (reserves `(ru0, rf0)` before it, `(ru1, rf1)` after its swap and deposit).
/// `None` where the pool was empty, the arithmetic does not fit, or the surplus is
/// negative.
pub fn safe_emission_cap(ru0: i128, rf0: i128, ru1: i128, rf1: i128, surplus: i128) -> (r: Option<
    i128,
>)
    ensures
        r is Some <==> cap_fits(ru0 as int, rf0 as int, ru1 as int, rf1 as int) && surplus >= 0,
        r matches Some(v) ==> {
            &&& v == min_int(surplus as int, x_max_of(ru0 as int, rf0 as int, ru1 as int, rf1 as int))
            &&& 0 <= v <= x_max_of(ru0 as int, rf0 as int, ru1 as int, rf1 as int)
        },
{
    if ru0 <= 0 || rf0 < 0 || ru1 < 0 || rf1 < 0 || surplus < 0 {
        return None;
    }
    let p1 = match (ru1 as u128).checked_mul(rf1 as u128) {
        Some(v) => v,
        None => return None,
    };
    let p2 = match p1.checked_mul(rf0 as u128) {
        Some(v) => v,
        None => return None,
    };
    let root = int_sqrt(p2 / (ru0 as u128));
    assert(root < 0x1_0000_0000_0000_0000) by {
        if root >= 0x1_0000_0000_0000_0000u128 {
            assert(root * root >= 0x1_0000_0000_0000_0000 * 0x1_0000_0000_0000_0000) by (
            nonlinear_arith)
                requires root >= 0x1_0000_0000_0000_0000int;
        }
    }
    let x_max: i128 = if root > rf1 as u128 {
        (root - rf1 as u128) as i128
    } else {
        0
    };
    Some(if surplus <= x_max { surplus } else { x_max })
}

/// A depositor's stake of `amount` split for joining: half is swapped, fee
/// included, against reserves `(r_in, r_out)`; returns the half and what it buys.
/// `None` for a stake that is not positive or arithmetic that does not fit.
pub fn stake_swap(amount: i128, r_in: i128, r_out: i128) -> (r: Option<(i128, i128)>)
    ensures
        r is Some <==> amount > 0 && swap_output_fits(amount / 2, r_in as int, r_out as int),
        r matches Some(p) ==> p.0 == amount / 2 && p.1 == swap_output_of(
            amount / 2,
            r_in as int,
            r_out as int,
        ),
{
    if amount <= 0 {
        return None;
    }
    let half = amount / 2;
    match swap_output(half, r_in, r_out) {
        Some(out) => Some((half, out)),
        None => None,
    }
}

} // verus!
