//! The campaign lifecycle: create, join, compound and claim, as a state machine
//! over the engine's store.
//!
//! Each entry point is described by a result function and a next-state function
//! over [`StoreView`]; a call that returns an error leaves the store unchanged.
use vstd::prelude::*;

use crate::rewards::{compute_contribution_weight, compute_rank_weight, compute_score, weight_of};
use crate::storage::{
    camp_of, get_active_campaign_for_pair, load_camp, marker_of, position_of, is_position, save_camp,
    set_active_campaign_for_pair, set_core_config, ActiveCampaignInfo, Addr, Campaign, CoreConfig,
    PositionEntry, Storage, StoreView, UserPos,
};
use crate::zap::{
    cap_fits, min_int, plan_of, plan_zap, safe_emission_cap, swap_output, swap_output_fits,
    swap_output_of, x_max_of, ZapPlan, MAX_BPS,
};
use crate::FlashErr;

verus! {

/// Rank decay exponent of the weight engine.
pub const GAMMA: u32 = 2;

pub const DEFAULT_SURPLUS_BPS: u32 = 500;

pub const DEFAULT_TTL_THRESH: u32 = 172_800;

pub const DEFAULT_TTL_BUMP: u32 = 241_920;

/// The seed pool as read before a campaign's swap: its tokens in pool order and
/// their reserves.
#[derive(Clone, Copy, Debug, PartialEq, Eq, Structural)]
pub struct PairReserves {
    pub token0: Addr,
    pub token1: Addr,
    pub reserve0: i128,
    pub reserve1: i128,
}

/// What the seed pool reported after a campaign's balanced deposit.
#[derive(Clone, Copy, Debug, PartialEq, Eq, Structural)]
pub struct DepositReport {
    pub lp_minted: i128,
    /// The pool's stable-asset balance after the deposit.
    pub pair_usdc_balance: i128,
    /// The pool's reward-asset balance after the deposit.
    pub pair_flash_balance: i128,
}

/// What the admin's seeding of the engine reported.
#[derive(Clone, Copy, Debug, PartialEq, Eq, Structural)]
pub struct SeedReport {
    pub admin_flash_balance: i128,
    pub admin_usdc_balance: i128,
    /// The seed pool that was created.
    pub core_pair: Addr,
    pub lp_minted: i128,
}

/// A campaign pool's reserves, stable and reward asset, read before a compound's
/// harvest and after it.
#[derive(Clone, Copy, Debug, PartialEq, Eq, Structural)]
pub struct HarvestReserves {
    pub usdc_before: i128,
    pub flash_before: i128,
    pub usdc_after: i128,
    pub flash_after: i128,
}

/// What a claim pays the depositor.
#[derive(Clone, Copy, Debug, PartialEq, Eq, Structural)]
pub struct Payout {
    /// Reward asset: the share of the reward pool plus, if earned, of the bonus pool.
    pub flash: i128,
    /// The depositor's liquidity units.
    pub lp: i128,
}

// ---------------------------------------------------------------- sums

/// Sum over the positions of campaign `id` of their weight (`weight`) or
/// liquidity (`!weight`).
pub open spec fn pos_sum(s: Seq<PositionEntry>, id: int, weight: bool) -> int
    decreases s.len(),
{
    if s.len() == 0 {
        0
    } else {
        pos_sum(s.drop_last(), id, weight) + entry_amount(s.last(), id, weight)
    }
}

/// What entry `e` adds to the sum of campaign `id`.
pub open spec fn entry_amount(e: PositionEntry, id: int, weight: bool) -> int {
    if e.campaign_id != id {
        0
    } else if weight {
        e.pos.weight as int
    } else {
        e.pos.lp as int
    }
}

proof fn lemma_sum_push(s: Seq<PositionEntry>, e: PositionEntry, id: int, weight: bool)
    ensures
        pos_sum(s.push(e), id, weight) == pos_sum(s, id, weight) + entry_amount(e, id, weight),
{
    assert(s.push(e).drop_last() =~= s);
}

proof fn lemma_sum_remove(s: Seq<PositionEntry>, i: int, id: int, weight: bool)
    requires
        0 <= i < s.len(),
    ensures
        pos_sum(s.remove(i), id, weight) == pos_sum(s, id, weight) - entry_amount(s[i], id, weight),
    decreases s.len(),
{
    if i == s.len() - 1 {
        assert(s.remove(i) =~= s.drop_last());
    } else {
        lemma_sum_remove(s.drop_last(), i, id, weight);
        assert(s.remove(i).drop_last() =~= s.drop_last().remove(i));
        assert(s.remove(i).last() == s.last());
    }
}

proof fn lemma_sum_nonneg(s: Seq<PositionEntry>, id: int, weight: bool)
    requires
        forall|i: int| 0 <= i < s.len() ==> entry_amount(#[trigger] s[i], id, weight) >= 0,
    ensures
        pos_sum(s, id, weight) >= 0,
    decreases s.len(),
{
    if s.len() > 0 {
        lemma_sum_nonneg(s.drop_last(), id, weight);
        assert(entry_amount(s[s.len() - 1], id, weight) >= 0);
    }
}

proof fn lemma_sum_absent(s: Seq<PositionEntry>, id: int, weight: bool)
    requires
        forall|i: int| 0 <= i < s.len() ==> (#[trigger] s[i]).campaign_id != id,
    ensures
        pos_sum(s, id, weight) == 0,
    decreases s.len(),
{
    if s.len() > 0 {
        lemma_sum_absent(s.drop_last(), id, weight);
        assert(s[s.len() - 1].campaign_id != id);
    }
}

// ---------------------------------------------------------------- well-formedness

/// A position entry is sound: its campaign exists and it holds positive
/// liquidity, a non-negative weight and a rank already handed out.
pub open spec fn entry_ok(v: StoreView, e: PositionEntry) -> bool {
    &&& 1 <= e.campaign_id <= v.camps.len()
    &&& e.pos.lp > 0
    &&& e.pos.weight >= 0
    &&& 1 <= e.pos.rank <= v.camps[e.campaign_id - 1].joins
}

/// Campaign `id` is sound: its totals are the sums over its open positions, and
/// its budgets and counters are in range.
pub open spec fn camp_ok(v: StoreView, c: Campaign, id: int) -> bool {
    &&& c.total_weight == pos_sum(v.positions, id, true)
    &&& c.total_lp == pos_sum(v.positions, id, false)
    &&& c.reward_flash >= 0
    &&& c.bonus_flash >= 0
    &&& c.stake_lp >= 0
    &&& c.claimed_lp >= 0
    &&& c.claimed_weight >= 0
    &&& c.total_lp + c.claimed_lp <= i128::MAX
    &&& c.total_weight + c.claimed_weight <= i128::MAX
}

/// The store's invariant.
pub open spec fn store_wf(v: StoreView) -> bool {
    &&& match v.config {
        None => v.camps.len() == 0,
        Some(cfg) => v.camps.len() == cfg.next,
    }
    &&& forall|i: int| 0 <= i < v.positions.len() ==> entry_ok(v, #[trigger] v.positions[i])
    &&& forall|i: int, j: int|
        0 <= i < j < v.positions.len() ==> !is_position(
            #[trigger] v.positions[i],
            v.positions[j].campaign_id as int,
            #[trigger] v.positions[j].user,
        )
    &&& forall|k: int| 0 <= k < v.camps.len() ==> camp_ok(v, #[trigger] v.camps[k], k + 1)
}

/// In a well-formed store, at most one entry holds `user`'s position in campaign `id`.
pub proof fn lemma_position_unique(v: StoreView, i: int, j: int, id: int, user: Addr)
    requires
        store_wf(v),
        0 <= i < v.positions.len(),
        0 <= j < v.positions.len(),
        is_position(v.positions[i], id, user),
        is_position(v.positions[j], id, user),
    ensures
        i == j,
{
    if i < j {
        assert(!is_position(v.positions[i], v.positions[j].campaign_id as int, v.positions[j].user));
    } else if j < i {
        assert(!is_position(v.positions[j], v.positions[i].campaign_id as int, v.positions[i].user));
    }
}

// ---------------------------------------------------------------- entry points as functions

/// The seed pool's reserves as `(stable, reward)`, if its tokens are the
/// configured pair.
pub open spec fn reserves_in_order(cfg: CoreConfig, obs: PairReserves) -> Option<(i128, i128)> {
    if obs.token0 == cfg.usdc && obs.token1 == cfg.flash {
        Some((obs.reserve0, obs.reserve1))
    } else if obs.token0 == cfg.flash && obs.token1 == cfg.usdc {
        Some((obs.reserve1, obs.reserve0))
    } else {
        None
    }
}

/// Pool `pair` carries a marker that has not expired at height `now`.
pub open spec fn marker_blocks(v: StoreView, pair: Addr, now: int) -> bool {
    match marker_of(v, pair) {
        Some(info) => now < info.end_ledger,
        None => false,
    }
}

/// The plan for a new campaign's fee, or why none can be made.
pub open spec fn plan_result(v: StoreView, now: int, fee: i128, pool: Addr, obs: PairReserves) -> Result<
    ZapPlan,
    FlashErr,
> {
    if marker_blocks(v, pool, now) {
        Err(FlashErr::CampaignActiveForPair)
    } else {
        match v.config {
            None => Err(FlashErr::NoCorePair),
            Some(cfg) => {
                if cfg.core_pair is None {
                    Err(FlashErr::NoCorePair)
                } else if cfg.surplus_bps >= MAX_BPS {
                    Err(FlashErr::BpsOutOfRange)
                } else {
                    match reserves_in_order(cfg, obs) {
                        None => Err(FlashErr::InvalidToken),
                        Some(r) => match plan_of(fee as int, r.0 as int, r.1 as int, cfg.surplus_bps as int) {
                            None => Err(FlashErr::Math),
                            Some(plan) => Ok(plan),
                        },
                    }
                }
            },
        }
    }
}

/// The reward asset the deposit actually took in beyond the post-swap reserve.
pub open spec fn actual_flash_of(plan: ZapPlan, dep: DepositReport) -> int {
    dep.pair_flash_balance - plan.reserve_flash_after_swap
}

/// The realized surplus: swap output plus reward asset deposited, less what the
/// balanced deposit needed.
pub open spec fn surplus_of(plan: ZapPlan, dep: DepositReport) -> int {
    plan.flash_out + actual_flash_of(plan, dep) - plan.flash_needed
}

/// The surplus can be computed in 128-bit arithmetic and is not negative.
pub open spec fn surplus_fits(plan: ZapPlan, dep: DepositReport) -> bool {
    &&& i128::MIN <= actual_flash_of(plan, dep) <= i128::MAX
    &&& i128::MIN <= plan.flash_out + actual_flash_of(plan, dep) <= i128::MAX
    &&& 0 <= surplus_of(plan, dep) <= i128::MAX
}

/// The result of `create_campaign`.
pub open spec fn create_result(
    v: StoreView,
    now: int,
    fee: i128,
    pool: Addr,
    unlock: int,
    bonus: i128,
    obs: PairReserves,
    dep: DepositReport,
) -> Result<u32, FlashErr> {
    match plan_result(v, now, fee, pool, obs) {
        Err(e) => Err(e),
        Ok(plan) => {
            let cfg = v.config->Some_0;
            let r = reserves_in_order(cfg, obs)->Some_0;
            if dep.lp_minted <= 0 || !surplus_fits(plan, dep) || !cap_fits(
                r.0 as int,
                r.1 as int,
                dep.pair_usdc_balance as int,
                dep.pair_flash_balance as int,
            ) || bonus < 0 || cfg.next >= u32::MAX || now + unlock > u32::MAX {
                Err(FlashErr::Math)
            } else {
                Ok((cfg.next + 1) as u32)
            }
        },
    }
}

/// The reward budget of a campaign created with this plan and deposit.
pub open spec fn reward_of(cfg: CoreConfig, obs: PairReserves, plan: ZapPlan, dep: DepositReport) -> int {
    let r = reserves_in_order(cfg, obs)->Some_0;
    min_int(
        surplus_of(plan, dep),
        x_max_of(r.0 as int, r.1 as int, dep.pair_usdc_balance as int, dep.pair_flash_balance as int),
    )
}

/// The store after a successful `create_campaign`.
pub open spec fn create_next(
    v: StoreView,
    now: int,
    fee: i128,
    pool: Addr,
    unlock: int,
    target_lp: i128,
    bonus: i128,
    obs: PairReserves,
    dep: DepositReport,
) -> StoreView {
    let cfg = v.config->Some_0;
    let plan = plan_result(v, now, fee, pool, obs)->Ok_0;
    let id = (cfg.next + 1) as u32;
    let end = (now + unlock) as u32;
    StoreView {
        config: Some(CoreConfig { next: id, ..cfg }),
        camps: v.camps.push(
            Campaign {
                pair: pool,
                duration: unlock as u32,
                end_ledger: end,
                target_lp,
                total_lp: 0,
                total_weight: 0,
                reward_flash: reward_of(cfg, obs, plan, dep) as i128,
                bonus_flash: bonus,
                stake_lp: 0,
                joins: 0,
                claimed_lp: 0,
                claimed_weight: 0,
            },
        ),
        markers: v.markers.insert(pool, ActiveCampaignInfo { campaign_id: id, end_ledger: end }),
        ..v
    }
}

/// The result of `join_campaign`.
pub open spec fn join_result(v: StoreView, now: int, id: int, amount: i128, user: Addr, lp: i128) -> Result<
    (),
    FlashErr,
> {
    if amount <= 0 {
        Err(FlashErr::Maq)
    } else {
        match camp_of(v, id) {
            None => Err(FlashErr::NoCampaign),
            Some(c) => {
                if now >= c.end_ledger {
                    Err(FlashErr::CampaignEnded)
                } else if position_of(v, id, user) is Some {
                    Err(FlashErr::AlreadyJoined)
                } else if lp <= 0 {
                    Err(FlashErr::Maw)
                } else if c.joins >= u32::MAX || c.total_lp + c.claimed_lp + lp > i128::MAX
                    || c.total_weight + c.claimed_weight + weight_of(
                    c.joins + 1,
                    GAMMA as nat,
                    lp as int,
                    c.target_lp as int,
                ) > i128::MAX {
                    Err(FlashErr::Math)
                } else {
                    Ok(())
                }
            },
        }
    }
}

/// The store after a successful `join_campaign`: the depositor holds the next
/// rank, and the campaign's totals grow by the new position.
pub open spec fn join_next(v: StoreView, now: int, id: int, user: Addr, lp: i128) -> StoreView {
    let c = v.camps[id - 1];
    let rank = c.joins + 1;
    let w = weight_of(rank, GAMMA as nat, lp as int, c.target_lp as int);
    StoreView {
        camps: v.camps.update(
            id - 1,
            Campaign {
                total_lp: (c.total_lp + lp) as i128,
                total_weight: (c.total_weight + w) as i128,
                joins: rank as u32,
                ..c
            },
        ),
        positions: v.positions.push(
            PositionEntry {
                campaign_id: id as u32,
                user,
                pos: UserPos { lp, weight: w as i128, joined_ledger: now as u32, rank: rank as u32 },
            },
        ),
        ..v
    }
}

/// The claim of position `p` on campaign `c`: shares of the reward pool and, when
/// the campaign reached its liquidity target, of the bonus pool, in proportion to
/// the position's weight among all weight that joined; `None` where the
/// arithmetic does not fit.
pub open spec fn claim_payout(c: Campaign, p: UserPos) -> Option<Payout> {
    let w_all = c.total_weight + c.claimed_weight;
    let base_num = c.reward_flash * p.weight;
    let bonus_num = if c.total_lp + c.claimed_lp >= c.target_lp {
        c.bonus_flash * p.weight
    } else {
        0
    };
    if base_num > i128::MAX || bonus_num > i128::MAX || base_num / w_all + bonus_num / w_all
        > i128::MAX {
        None
    } else {
        Some(Payout { flash: (base_num / w_all + bonus_num / w_all) as i128, lp: p.lp })
    }
}

/// The result of `claim`.
pub open spec fn claim_result(v: StoreView, now: int, id: int, user: Addr) -> Result<Payout, FlashErr> {
    match camp_of(v, id) {
        None => Err(FlashErr::NoCampaign),
        Some(c) => {
            if now < c.end_ledger {
                Err(FlashErr::TooEarly)
            } else {
                match position_of(v, id, user) {
                    None => Err(FlashErr::NothingToClaim),
                    Some(p) => {
                        if p.weight <= 0 {
                            Err(FlashErr::NothingToClaim)
                        } else {
                            match claim_payout(c, p) {
                                None => Err(FlashErr::Math),
                                Some(pay) => Ok(pay),
                            }
                        }
                    },
                }
            }
        },
    }
}

/// The index of `user`'s position in campaign `id`.
pub open spec fn position_index(v: StoreView, id: int, user: Addr) -> int {
    choose|i: int| 0 <= i < v.positions.len() && is_position(#[trigger] v.positions[i], id, user)
}

/// The store after a successful `claim`: the position is gone and its weight and
/// liquidity move from the open totals to the claimed ones.
pub open spec fn claim_next(v: StoreView, id: int, user: Addr) -> StoreView {
    let c = v.camps[id - 1];
    let i = position_index(v, id, user);
    let p = v.positions[i].pos;
    StoreView {
        camps: v.camps.update(
            id - 1,
            Campaign {
                total_lp: (c.total_lp - p.lp) as i128,
                total_weight: (c.total_weight - p.weight) as i128,
                claimed_lp: (c.claimed_lp + p.lp) as i128,
                claimed_weight: (c.claimed_weight + p.weight) as i128,
                ..c
            },
        ),
        positions: v.positions.remove(i),
        ..v
    }
}

/// The result of `fee_liquidity`: what campaign `id`'s stake grew by when it
/// re-minted as `lp_new`, or zero.
pub open spec fn fee_liquidity_result(v: StoreView, id: int, lp_new: i128) -> Result<i128, FlashErr> {
    match camp_of(v, id) {
        None => Err(FlashErr::NoCampaign),
        Some(c) => {
            if lp_new <= 0 {
                Err(FlashErr::Mae)
            } else if lp_new > c.stake_lp {
                Ok((lp_new - c.stake_lp) as i128)
            } else {
                Ok(0)
            }
        },
    }
}

/// The safe-emission cap over a compound's harvest: the campaign pool's reserves
/// (stable, reward) before the harvest and after it.
pub open spec fn harvest_cap_of(h: HarvestReserves) -> int {
    x_max_of(h.usdc_before as int, h.flash_before as int, h.usdc_after as int, h.flash_after as int)
}

/// The harvest cap can be computed in 128-bit arithmetic.
pub open spec fn harvest_cap_fits(h: HarvestReserves) -> bool {
    cap_fits(h.usdc_before as int, h.flash_before as int, h.usdc_after as int, h.flash_after as int)
}

/// The result of `compound`, given the liquidity `lp_new` re-minted from the
/// campaign's stake, the reward asset `gain` harvested from the fee liquidity and
/// the pool's reserves `h` around the harvest.
pub open spec fn compound_result(v: StoreView, id: int, lp_new: i128, gain: i128, h: HarvestReserves) -> Result<
    (),
    FlashErr,
> {
    match camp_of(v, id) {
        None => Err(FlashErr::NoCampaign),
        Some(c) => {
            if lp_new <= 0 {
                Err(FlashErr::Mae)
            } else if lp_new > c.stake_lp && (gain < 0 || !harvest_cap_fits(h) || c.reward_flash
                + min_int(gain as int, harvest_cap_of(h)) > i128::MAX) {
                Err(FlashErr::Math)
            } else {
                Ok(())
            }
        },
    }
}

/// The store after a successful `compound`: when the stake grew, the harvest
/// joins the reward pool up to the safe-emission cap; the stake becomes `lp_new`.
pub open spec fn compound_next(v: StoreView, id: int, lp_new: i128, gain: i128, h: HarvestReserves) -> StoreView {
    let c = v.camps[id - 1];
    StoreView {
        camps: v.camps.update(
            id - 1,
            Campaign {
                reward_flash: if lp_new > c.stake_lp {
                    (c.reward_flash + min_int(gain as int, harvest_cap_of(h))) as i128
                } else {
                    c.reward_flash
                },
                stake_lp: lp_new,
                ..c
            },
        ),
        ..v
    }
}

/// The result of `initialize`.
pub open spec fn initialize_result(
    v: StoreView,
    initial_flash: i128,
    initial_usdc: i128,
    seed: SeedReport,
) -> Result<Addr, FlashErr> {
    if initial_flash <= 0 {
        Err(FlashErr::Mad)
    } else if initial_usdc <= 0 {
        Err(FlashErr::Maf)
    } else if v.config is Some {
        Err(FlashErr::AlreadyInit)
    } else if seed.admin_flash_balance < initial_flash {
        Err(FlashErr::Maj)
    } else if seed.admin_usdc_balance < initial_usdc {
        Err(FlashErr::Mak)
    } else if seed.lp_minted <= 0 {
        Err(FlashErr::Mar)
    } else {
        Ok(seed.core_pair)
    }
}

/// The configuration a successful `initialize` writes.
pub open spec fn initial_config(admin: Addr, flash: Addr, usdc: Addr, core_pair: Addr) -> CoreConfig {
    CoreConfig {
        admin,
        flash,
        usdc,
        core_pair: Some(core_pair),
        next: 0,
        surplus_bps: DEFAULT_SURPLUS_BPS,
        ttl_thresh: DEFAULT_TTL_THRESH,
        ttl_bump: DEFAULT_TTL_BUMP,
    }
}

/// The result of an admin setter called by `admin`.
pub open spec fn admin_result(v: StoreView, admin: Addr) -> Result<(), FlashErr> {
    match v.config {
        None => Err(FlashErr::NoCorePair),
        Some(cfg) => if admin != cfg.admin {
            Err(FlashErr::NotAdmin)
        } else {
            Ok(())
        },
    }
}

/// Reward asset harvested from `amount` of `token`: the amount itself for the
/// reward asset, a fee-inclusive swap against `(ru, rf)` for the stable asset, nothing
/// for any other token; `None` where the swap's arithmetic does not fit.
pub open spec fn leg_gain(cfg: CoreConfig, token: Addr, amount: i128, ru: i128, rf: i128) -> Option<int> {
    if token == cfg.flash {
        Some(amount as int)
    } else if token == cfg.usdc {
        if amount == 0 {
            Some(0)
        } else if swap_output_fits(amount as int, ru as int, rf as int) {
            Some(swap_output_of(amount as int, ru as int, rf as int))
        } else {
            None
        }
    } else {
        Some(0)
    }
}

/// The reward asset a compound harvests from withdrawn fee liquidity
/// `(amount0, amount1)` of a pool read as `pool` after the withdrawal; `None`
/// where the arithmetic does not fit.
pub open spec fn harvest_of(cfg: CoreConfig, pool: PairReserves, amount0: i128, amount1: i128) -> Option<int> {
    let (ru, rf) = if pool.token0 == cfg.usdc {
        (pool.reserve0, pool.reserve1)
    } else {
        (pool.reserve1, pool.reserve0)
    };
    match (leg_gain(cfg, pool.token0, amount0, ru, rf), leg_gain(cfg, pool.token1, amount1, ru, rf)) {
        (Some(g0), Some(g1)) => if i128::MIN <= g0 + g1 <= i128::MAX {
            Some(g0 + g1)
        } else {
            None
        },
        _ => None,
    }
}

fn leg_gain_exec(cfg: &CoreConfig, token: Addr, amount: i128, ru: i128, rf: i128) -> (r: Option<i128>)
    ensures
        r matches Some(g) ==> leg_gain(*cfg, token, amount, ru, rf) == Some(g as int),
        r is None ==> leg_gain(*cfg, token, amount, ru, rf) is None,
{
    if token == cfg.flash {
        Some(amount)
    } else if token == cfg.usdc {
        if amount == 0 {
            Some(0)
        } else {
            swap_output(amount, ru, rf)
        }
    } else {
        Some(0)
    }
}

/// The reward asset a compound harvests from fee liquidity withdrawn as
/// `(amount0, amount1)`, with `pool` the campaign pool as read after the
/// withdrawal. `None` where the arithmetic does not fit.
pub fn harvest_gain(cfg: &CoreConfig, pool: &PairReserves, amount0: i128, amount1: i128) -> (r: Option<i128>)
    ensures
        r matches Some(g) ==> harvest_of(*cfg, *pool, amount0, amount1) == Some(g as int),
        r is None <==> harvest_of(*cfg, *pool, amount0, amount1) is None,
{
    let (ru, rf) = if pool.token0 == cfg.usdc {
        (pool.reserve0, pool.reserve1)
    } else {
        (pool.reserve1, pool.reserve0)
    };
    let g0 = match leg_gain_exec(cfg, pool.token0, amount0, ru, rf) {
        Some(g) => g,
        None => return None,
    };
    let g1 = match leg_gain_exec(cfg, pool.token1, amount1, ru, rf) {
        Some(g) => g,
        None => return None,
    };
    g0.checked_add(g1)
}

// ---------------------------------------------------------------- the engine

/// The campaign engine: its store, kept well-formed by every entry point.
pub struct FlashCampaignManager {
    store: Storage,
}

impl View for FlashCampaignManager {
    type V = StoreView;

    closed spec fn view(&self) -> StoreView {
        self.store@
    }
}

impl FlashCampaignManager {
    /// The engine's invariant.
    pub open spec fn wf(&self) -> bool {
        store_wf(self@)
    }

    /// An engine that has not been initialized.
    pub fn new() -> (r: FlashCampaignManager)
        ensures
            r.wf(),
            r@.config is None,
            r@.camps.len() == 0,
            r@.positions.len() == 0,
            r@.markers == Map::<Addr, ActiveCampaignInfo>::empty(),
    {
        FlashCampaignManager { store: Storage::new() }
    }

    /// Initializes the engine once the admin seeded its pool: the admin held
    /// `seed`'s balances, and depositing `initial_flash` and `initial_usdc` into the
    /// new seed pool minted `seed.lp_minted` units. Returns the seed pool.
    pub fn initialize(
        &mut self,
        admin: Addr,
        flash: Addr,
        usdc: Addr,
        initial_flash: i128,
        initial_usdc: i128,
        seed: SeedReport,
    ) -> (r: Result<Addr, FlashErr>)
        requires
            old(self).wf(),
        ensures
            final(self).wf(),
            r == initialize_result(old(self)@, initial_flash, initial_usdc, seed),
            r is Ok ==> final(self)@ == (StoreView {
                config: Some(initial_config(admin, flash, usdc, seed.core_pair)),
                ..old(self)@
            }),
            r is Err ==> final(self)@ == old(self)@,
    {
        if initial_flash <= 0 {
            return Err(FlashErr::Mad);
        }
        if initial_usdc <= 0 {
            return Err(FlashErr::Maf);
        }
        if self.store.config.is_some() {
            return Err(FlashErr::AlreadyInit);
        }
        if seed.admin_flash_balance < initial_flash {
            return Err(FlashErr::Maj);
        }
        if seed.admin_usdc_balance < initial_usdc {
            return Err(FlashErr::Mak);
        }
        if seed.lp_minted <= 0 {
            return Err(FlashErr::Mar);
        }
        let ghost pre = self@;
        set_core_config(
            &mut self.store,
            CoreConfig {
                admin,
                flash,
                usdc,
                core_pair: Some(seed.core_pair),
                next: 0,
                surplus_bps: DEFAULT_SURPLUS_BPS,
                ttl_thresh: DEFAULT_TTL_THRESH,
                ttl_bump: DEFAULT_TTL_BUMP,
            },
        );
        proof {
            let post = self@;
            assert(pre.positions.len() == 0) by {
                if pre.positions.len() > 0 {
                    assert(entry_ok(pre, pre.positions[0]));
                }
            }
            assert forall|k: int| 0 <= k < post.camps.len() implies camp_ok(post, #[trigger] post.camps[k], k + 1) by {
            }
        }
        Ok(seed.core_pair)
    }

    /// Plans a campaign's fee of `fee_usdc` on pool `target_pool` at height `now`,
    /// against the seed pool as read in `reserves`: what to swap, what the swap
    /// pays, and what to deposit.
    pub fn plan_campaign(&self, now: u32, fee_usdc: i128, target_pool: Addr, reserves: PairReserves) -> (r: Result<
        ZapPlan,
        FlashErr,
    >)
        ensures
            r == plan_result(self@, now as int, fee_usdc, target_pool, reserves),
    {
        if let Some(info) = get_active_campaign_for_pair(&self.store, target_pool) {
            if now < info.end_ledger {
                return Err(FlashErr::CampaignActiveForPair);
            }
        }
        let cfg = match self.store.config {
            Some(c) => c,
            None => return Err(FlashErr::NoCorePair),
        };
        if cfg.core_pair.is_none() {
            return Err(FlashErr::NoCorePair);
        }
        if cfg.surplus_bps >= MAX_BPS {
            return Err(FlashErr::BpsOutOfRange);
        }
        let (ru0, rf0) = match Self::order_reserves(&cfg, &reserves) {
            Some(r) => r,
            None => return Err(FlashErr::InvalidToken),
        };
        match plan_zap(fee_usdc, ru0, rf0, cfg.surplus_bps) {
            Some(plan) => Ok(plan),
            None => Err(FlashErr::Math),
        }
    }

    /// Creates a campaign on pool `target_pool` at height `now`, unlocking after
    /// `unlock` heights, for a fee of `fee_usdc` zapped into the seed pool (read in
    /// `reserves` before the swap, and reported in `deposit` after the deposit).
    /// The reward budget is the realized surplus capped by the safe-emission cap;
    /// the pool's marker blocks further campaigns until the unlock height.
    pub fn create_campaign(
        &mut self,
        now: u32,
        fee_usdc: i128,
        target_pool: Addr,
        unlock: u32,
        target_lp: i128,
        bonus_flash: i128,
        reserves: PairReserves,
        deposit: DepositReport,
    ) -> (r: Result<u32, FlashErr>)
        requires
            old(self).wf(),
        ensures
            final(self).wf(),
            r == create_result(old(self)@, now as int, fee_usdc, target_pool, unlock as int, bonus_flash, reserves, deposit),
            r is Ok ==> final(self)@ == create_next(
                old(self)@,
                now as int,
                fee_usdc,
                target_pool,
                unlock as int,
                target_lp,
                bonus_flash,
                reserves,
                deposit,
            ),
            r is Err ==> final(self)@ == old(self)@,
    {
        let plan = match self.plan_campaign(now, fee_usdc, target_pool, reserves) {
            Ok(p) => p,
            Err(e) => return Err(e),
        };
        let cfg = match self.store.config {
            Some(c) => c,
            None => return Err(FlashErr::NoCorePair),
        };
        let (ru0, rf0) = match Self::order_reserves(&cfg, &reserves) {
            Some(r) => r,
            None => return Err(FlashErr::InvalidToken),
        };
        if deposit.lp_minted <= 0 {
            return Err(FlashErr::Math);
        }
        let actual_flash = match deposit.pair_flash_balance.checked_sub(plan.reserve_flash_after_swap) {
            Some(v) => v,
            None => return Err(FlashErr::Math),
        };
        let gross = match plan.flash_out.checked_add(actual_flash) {
            Some(v) => v,
            None => return Err(FlashErr::Math),
        };
        let surplus = match gross.checked_sub(plan.flash_needed) {
            Some(v) => v,
            None => return Err(FlashErr::Math),
        };
        let reward_flash = match safe_emission_cap(
            ru0,
            rf0,
            deposit.pair_usdc_balance,
            deposit.pair_flash_balance,
            surplus,
        ) {
            Some(v) => v,
            None => return Err(FlashErr::Math),
        };
        if bonus_flash < 0 || cfg.next == u32::MAX {
            return Err(FlashErr::Math);
        }
        let end_ledger = match now.checked_add(unlock) {
            Some(v) => v,
            None => return Err(FlashErr::Math),
        };
        let id = cfg.next + 1;
        let ghost pre = self@;
        set_core_config(&mut self.store, CoreConfig { next: id, ..cfg });
        save_camp(
            &mut self.store,
            id,
            Campaign {
                pair: target_pool,
                duration: unlock,
                end_ledger,
                target_lp,
                total_lp: 0,
                total_weight: 0,
                reward_flash,
                bonus_flash,
                stake_lp: 0,
                joins: 0,
                claimed_lp: 0,
                claimed_weight: 0,
            },
        );
        set_active_campaign_for_pair(
            &mut self.store,
            target_pool,
            ActiveCampaignInfo { campaign_id: id, end_ledger },
        );
        proof {
            let post = self@;
            assert(post == create_next(pre, now as int, fee_usdc, target_pool, unlock as int, target_lp, bonus_flash, reserves, deposit));
            assert forall|i: int| 0 <= i < pre.positions.len() implies (#[trigger] pre.positions[i]).campaign_id != id by {
                assert(entry_ok(pre, pre.positions[i]));
            }
            lemma_sum_absent(pre.positions, id as int, true);
            lemma_sum_absent(pre.positions, id as int, false);
            assert forall|i: int| 0 <= i < post.positions.len() implies entry_ok(post, #[trigger] post.positions[i]) by {
                assert(entry_ok(pre, pre.positions[i]));
            }
            assert forall|k: int| 0 <= k < post.camps.len() implies camp_ok(post, #[trigger] post.camps[k], k + 1) by {
                if k < pre.camps.len() {
                    assert(camp_ok(pre, pre.camps[k], k + 1));
                }
            }
        }
        Ok(id)
    }

    /// Records `user`'s join of campaign `id` at height `now`: a stake of `amount`
    /// stable units, half swapped and both halves deposited, minted `lp` liquidity
    /// units. The depositor gets the next rank and a weight from the weight engine.
    /// A depositor joins a campaign once, before its unlock height.
    pub fn join_campaign(&mut self, now: u32, id: u32, amount: i128, user: Addr, lp: i128) -> (r: Result<
        (),
        FlashErr,
    >)
        requires
            old(self).wf(),
        ensures
            final(self).wf(),
            r == join_result(old(self)@, now as int, id as int, amount, user, lp),
            r is Ok ==> final(self)@ == join_next(old(self)@, now as int, id as int, user, lp),
            r is Err ==> final(self)@ == old(self)@,
    {
        if amount <= 0 {
            return Err(FlashErr::Maq);
        }
        let c = match load_camp(&self.store, id) {
            Some(c) => c,
            None => return Err(FlashErr::NoCampaign),
        };
        if now >= c.end_ledger {
            return Err(FlashErr::CampaignEnded);
        }
        if self.find_position(id, user).is_some() {
            return Err(FlashErr::AlreadyJoined);
        }
        proof {
            if position_of(self@, id as int, user) is Some {
                let i = choose|i: int| 0 <= i < self@.positions.len() && is_position(#[trigger] self@.positions[i], id as int, user);
                assert(is_position(self@.positions[i], id as int, user));
            }
        }
        if lp <= 0 {
            return Err(FlashErr::Maw);
        }
        if c.joins == u32::MAX {
            return Err(FlashErr::Math);
        }
        let rank = c.joins + 1;
        let contribution = compute_contribution_weight(lp, c.target_lp);
        let rank_weight = compute_rank_weight(rank, GAMMA);
        let weight = compute_score(rank_weight, contribution);
        proof {
            assert(camp_ok(self@, self@.camps[id - 1], id as int));
        }
        let lp_all = c.total_lp + c.claimed_lp;
        let weight_all = c.total_weight + c.claimed_weight;
        if lp_all.checked_add(lp).is_none() || weight_all.checked_add(weight).is_none() {
            return Err(FlashErr::Math);
        }
        let ghost pre = self@;
        let entry = PositionEntry {
            campaign_id: id,
            user,
            pos: UserPos { lp, weight, joined_ledger: now, rank },
        };
        save_camp(
            &mut self.store,
            id,
            Campaign { total_lp: c.total_lp + lp, total_weight: c.total_weight + weight, joins: rank, ..c },
        );
        self.store.positions.push(entry);
        proof {
            let post = self@;
            assert(post == join_next(pre, now as int, id as int, user, lp));
            assert forall|k: int| 0 <= k < post.camps.len() implies camp_ok(post, #[trigger] post.camps[k], k + 1) by {
                assert(camp_ok(pre, pre.camps[k], k + 1));
                lemma_sum_push(pre.positions, entry, k + 1, true);
                lemma_sum_push(pre.positions, entry, k + 1, false);
            }
            assert forall|i: int| 0 <= i < post.positions.len() implies entry_ok(post, #[trigger] post.positions[i]) by {
                if i < pre.positions.len() {
                    assert(entry_ok(pre, pre.positions[i]));
                }
            }
            assert forall|i: int, j: int|
                0 <= i < j < post.positions.len() implies !is_position(
                    #[trigger] post.positions[i],
                    post.positions[j].campaign_id as int,
                    #[trigger] post.positions[j].user,
                ) by {
                if j < pre.positions.len() {
                    assert(!is_position(pre.positions[i], pre.positions[j].campaign_id as int, pre.positions[j].user));
                } else {
                    assert(!is_position(pre.positions[i], id as int, user));
                }
            }
        }
        Ok(())
    }

    /// The liquidity units to withdraw as fees when campaign `id`'s stake re-mints
    /// as `lp_new`: what it grew by, or zero.
    pub fn fee_liquidity(&self, id: u32, lp_new: i128) -> (r: Result<i128, FlashErr>)
        requires
            self.wf(),
        ensures
            r == fee_liquidity_result(self@, id as int, lp_new),
    {
        let c = match load_camp(&self.store, id) {
            Some(c) => c,
            None => return Err(FlashErr::NoCampaign),
        };
        if lp_new <= 0 {
            return Err(FlashErr::Mae);
        }
        proof {
            assert(camp_ok(self@, c, id as int));
        }
        if lp_new > c.stake_lp {
            Ok(lp_new - c.stake_lp)
        } else {
            Ok(0)
        }
    }

    /// Compounds campaign `id`: its stake re-minted as `lp_new` liquidity units,
    /// and the fee liquidity it grew by harvested as `gain` reward asset, with the
    /// pool's reserves `reserves` around the harvest. The reward pool grows by the
    /// harvest capped by the safe-emission cap over those reserves.
    pub fn compound(&mut self, id: u32, lp_new: i128, gain: i128, reserves: HarvestReserves) -> (r:
        Result<(), FlashErr>)
        requires
            old(self).wf(),
        ensures
            final(self).wf(),
            r == compound_result(old(self)@, id as int, lp_new, gain, reserves),
            r is Ok ==> final(self)@ == compound_next(old(self)@, id as int, lp_new, gain, reserves),
            r is Err ==> final(self)@ == old(self)@,
    {
        let c = match load_camp(&self.store, id) {
            Some(c) => c,
            None => return Err(FlashErr::NoCampaign),
        };
        if lp_new <= 0 {
            return Err(FlashErr::Mae);
        }
        let mut reward_flash = c.reward_flash;
        if lp_new > c.stake_lp {
            let added = match safe_emission_cap(
                reserves.usdc_before,
                reserves.flash_before,
                reserves.usdc_after,
                reserves.flash_after,
                gain,
            ) {
                Some(v) => v,
                None => return Err(FlashErr::Math),
            };
            reward_flash = match c.reward_flash.checked_add(added) {
                Some(v) => v,
                None => return Err(FlashErr::Math),
            };
        }
        let ghost pre = self@;
        proof {
            assert(camp_ok(pre, c, id as int));
        }
        save_camp(&mut self.store, id, Campaign { reward_flash, stake_lp: lp_new, ..c });
        proof {
            let post = self@;
            assert(post == compound_next(pre, id as int, lp_new, gain, reserves));
            assert forall|k: int| 0 <= k < post.camps.len() implies camp_ok(post, #[trigger] post.camps[k], k + 1) by {
                assert(camp_ok(pre, pre.camps[k], k + 1));
            }
            assert forall|k: int| 0 <= k < post.positions.len() implies entry_ok(post, #[trigger] post.positions[k]) by {
                assert(entry_ok(pre, pre.positions[k]));
            }
        }
        Ok(())
    }

    /// Pays out `user`'s position in campaign `id` at height `now`, once the
    /// campaign has unlocked, and removes the position.
    pub fn claim(&mut self, now: u32, id: u32, user: Addr) -> (r: Result<Payout, FlashErr>)
        requires
            old(self).wf(),
        ensures
            final(self).wf(),
            r == claim_result(old(self)@, now as int, id as int, user),
            r is Ok ==> final(self)@ == claim_next(old(self)@, id as int, user),
            r is Err ==> final(self)@ == old(self)@,
    {
        let c = match load_camp(&self.store, id) {
            Some(c) => c,
            None => return Err(FlashErr::NoCampaign),
        };
        if now < c.end_ledger {
            return Err(FlashErr::TooEarly);
        }
        let i = match self.find_position(id, user) {
            Some(i) => i,
            None => return Err(FlashErr::NothingToClaim),
        };
        let ghost pre = self@;
        proof {
            lemma_position_unique(pre, i as int, position_index(pre, id as int, user), id as int, user);
        }
        let p = self.store.positions[i].pos;
        if p.weight <= 0 {
            return Err(FlashErr::NothingToClaim);
        }
        proof {
            assert(camp_ok(pre, c, id as int));
            lemma_sum_remove(pre.positions, i as int, id as int, true);
            lemma_sum_remove(pre.positions, i as int, id as int, false);
            assert forall|k: int| 0 <= k < pre.positions.remove(i as int).len() implies entry_amount(#[trigger] pre.positions.remove(i as int)[k], id as int, true) >= 0 by {
                if k < i { assert(entry_ok(pre, pre.positions[k])); } else { assert(entry_ok(pre, pre.positions[k + 1])); }
            }
            assert forall|k: int| 0 <= k < pre.positions.remove(i as int).len() implies entry_amount(#[trigger] pre.positions.remove(i as int)[k], id as int, false) >= 0 by {
                if k < i { assert(entry_ok(pre, pre.positions[k])); } else { assert(entry_ok(pre, pre.positions[k + 1])); }
            }
            lemma_sum_nonneg(pre.positions.remove(i as int), id as int, true);
            lemma_sum_nonneg(pre.positions.remove(i as int), id as int, false);
            assert(entry_ok(pre, pre.positions[i as int]));
        }
        let w_all = c.total_weight + c.claimed_weight;
        let base_num = match c.reward_flash.checked_mul(p.weight) {
            Some(v) => v,
            None => return Err(FlashErr::Math),
        };
        let bonus_num = if c.total_lp + c.claimed_lp >= c.target_lp {
            match c.bonus_flash.checked_mul(p.weight) {
                Some(v) => v,
                None => return Err(FlashErr::Math),
            }
        } else {
            0
        };
        proof {
            assert(base_num >= 0) by (nonlinear_arith)
                requires base_num == c.reward_flash * p.weight, c.reward_flash >= 0, p.weight >= 0;
            assert(bonus_num >= 0) by (nonlinear_arith)
                requires bonus_num == c.bonus_flash * p.weight || bonus_num == 0, c.bonus_flash >= 0, p.weight >= 0;
        }
        let flash = match (base_num / w_all).checked_add(bonus_num / w_all) {
            Some(v) => v,
            None => return Err(FlashErr::Math),
        };
        save_camp(
            &mut self.store,
            id,
            Campaign {
                total_lp: c.total_lp - p.lp,
                total_weight: c.total_weight - p.weight,
                claimed_lp: c.claimed_lp + p.lp,
                claimed_weight: c.claimed_weight + p.weight,
                ..c
            },
        );
        self.store.positions.remove(i);
        proof {
            let post = self@;
            assert(post == claim_next(pre, id as int, user));
            assert forall|k: int| 0 <= k < post.camps.len() implies camp_ok(post, #[trigger] post.camps[k], k + 1) by {
                assert(camp_ok(pre, pre.camps[k], k + 1));
                lemma_sum_remove(pre.positions, i as int, k + 1, true);
                lemma_sum_remove(pre.positions, i as int, k + 1, false);
            }
            assert forall|k: int| 0 <= k < post.positions.len() implies entry_ok(post, #[trigger] post.positions[k]) by {
                if k < i { assert(entry_ok(pre, pre.positions[k])); } else { assert(entry_ok(pre, pre.positions[k + 1])); }
            }
            assert forall|a: int, b: int|
                0 <= a < b < post.positions.len() implies !is_position(
                    #[trigger] post.positions[a],
                    post.positions[b].campaign_id as int,
                    #[trigger] post.positions[b].user,
                ) by {
                let a0 = if a < i { a } else { a + 1 };
                let b0 = if b < i { b } else { b + 1 };
                assert(!is_position(pre.positions[a0], pre.positions[b0].campaign_id as int, pre.positions[b0].user));
            }
        }
        Ok(Payout { flash, lp: p.lp })
    }

    /// Sets the surplus swapped beyond the break-even size, in basis points of the
    /// fee; only the admin may, and only below one whole.
    pub fn set_surplus_bps(&mut self, admin: Addr, bps: u32) -> (r: Result<(), FlashErr>)
        requires
            old(self).wf(),
        ensures
            final(self).wf(),
            r == (match admin_result(old(self)@, admin) {
                Err(e) => Err(e),
                Ok(()) => if bps >= MAX_BPS {
                    Err(FlashErr::BpsOutOfRange)
                } else {
                    Ok(())
                },
            }),
            r is Ok ==> final(self)@ == (StoreView {
                config: Some(CoreConfig { surplus_bps: bps, ..old(self)@.config->Some_0 }),
                ..old(self)@
            }),
            r is Err ==> final(self)@ == old(self)@,
    {
        let cfg = match self.store.config {
            Some(c) => c,
            None => return Err(FlashErr::NoCorePair),
        };
        if admin != cfg.admin {
            return Err(FlashErr::NotAdmin);
        }
        if bps >= MAX_BPS {
            return Err(FlashErr::BpsOutOfRange);
        }
        set_core_config(&mut self.store, CoreConfig { surplus_bps: bps, ..cfg });
        proof {
            let post = self@;
            assert forall|k: int| 0 <= k < post.camps.len() implies camp_ok(post, #[trigger] post.camps[k], k + 1) by {
            }
        }
        Ok(())
    }

    /// Sets the storage-lease threshold and extension; only the admin may.
    pub fn set_ttl(&mut self, admin: Addr, threshold: u32, bump: u32) -> (r: Result<(), FlashErr>)
        requires
            old(self).wf(),
        ensures
            final(self).wf(),
            r == admin_result(old(self)@, admin),
            r is Ok ==> final(self)@ == (StoreView {
                config: Some(CoreConfig { ttl_thresh: threshold, ttl_bump: bump, ..old(self)@.config->Some_0 }),
                ..old(self)@
            }),
            r is Err ==> final(self)@ == old(self)@,
    {
        let cfg = match self.store.config {
            Some(c) => c,
            None => return Err(FlashErr::NoCorePair),
        };
        if admin != cfg.admin {
            return Err(FlashErr::NotAdmin);
        }
        set_core_config(&mut self.store, CoreConfig { ttl_thresh: threshold, ttl_bump: bump, ..cfg });
        proof {
            let post = self@;
            assert forall|k: int| 0 <= k < post.camps.len() implies camp_ok(post, #[trigger] post.camps[k], k + 1) by {
            }
        }
        Ok(())
    }

    /// The configuration, once initialized.
    pub fn get_core_config(&self) -> (r: Option<CoreConfig>)
        ensures
            r == self@.config,
    {
        self.store.config
    }

    /// Campaign `id`, if there is one.
    pub fn get_campaign(&self, id: u32) -> (r: Option<Campaign>)
        ensures
            r == camp_of(self@, id as int),
    {
        load_camp(&self.store, id)
    }

    /// `user`'s open position in campaign `id`, if there is one.
    pub fn get_position(&self, id: u32, user: Addr) -> (r: Option<UserPos>)
        requires
            self.wf(),
        ensures
            r == position_of(self@, id as int, user),
    {
        match self.find_position(id, user) {
            Some(i) => {
                proof {
                    lemma_position_unique(self@, i as int, position_index(self@, id as int, user), id as int, user);
                }
                Some(self.store.positions[i].pos)
            },
            None => None,
        }
    }

    /// The marker of pool `pair`, if there is one.
    pub fn get_active_campaign_for_pair(&self, pair: Addr) -> (r: Option<ActiveCampaignInfo>)
        ensures
            r == marker_of(self@, pair),
    {
        get_active_campaign_for_pair(&self.store, pair)
    }

    fn find_position(&self, id: u32, user: Addr) -> (r: Option<usize>)
        ensures
            match r {
                Some(i) => i < self@.positions.len() && is_position(self@.positions[i as int], id as int, user),
                None => forall|i: int| 0 <= i < self@.positions.len() ==> !is_position(#[trigger] self@.positions[i], id as int, user),
            },
    {
        let mut i: usize = 0;
        while i < self.store.positions.len()
            invariant
                i <= self@.positions.len(),
                self@.positions == self.store.positions@,
                forall|j: int| 0 <= j < i ==> !is_position(#[trigger] self@.positions[j], id as int, user),
            decreases self@.positions.len() - i,
        {
            let e = self.store.positions[i];
            if e.campaign_id == id && e.user == user {
                return Some(i);
            }
            i += 1;
        }
        None
    }

    fn order_reserves(cfg: &CoreConfig, obs: &PairReserves) -> (r: Option<(i128, i128)>)
        ensures
            r == reserves_in_order(*cfg, *obs),
    {
        if obs.token0 == cfg.usdc && obs.token1 == cfg.flash {
            Some((obs.reserve0, obs.reserve1))
        } else if obs.token0 == cfg.flash && obs.token1 == cfg.usdc {
            Some((obs.reserve1, obs.reserve0))
        } else {
            None
        }
    }
}

} // verus!
