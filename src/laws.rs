//! Properties of the lifecycle that span several calls, or every reachable store.
use vstd::prelude::*;

use crate::manager::{
    camp_ok, claim_next, claim_result, compound_next, compound_result, create_next, create_result,
    claim_payout, join_next, join_result, lemma_position_unique, plan_result, pos_sum,
    position_index, reserves_in_order, store_wf, DepositReport, HarvestReserves, PairReserves,
    Payout,
};
use crate::storage::{camp_of, is_position, marker_of, position_of, Addr, StoreView};
use crate::zap::x_max_of;
use crate::FlashErr;

verus! {

/// In every well-formed store (and every entry point keeps the store
/// well-formed), a campaign's open totals are the sums of the weights and of the
/// liquidity of its positions not yet claimed.
pub proof fn lemma_totals_are_sums(v: StoreView, id: int)
    requires
        store_wf(v),
        camp_of(v, id) is Some,
    ensures
        camp_of(v, id)->Some_0.total_weight == pos_sum(v.positions, id, true),
        camp_of(v, id)->Some_0.total_lp == pos_sum(v.positions, id, false),
{
    assert(camp_ok(v, v.camps[id - 1], id));
}

/// A created campaign's reward budget is at most the safe-emission cap computed
/// from the seed pool's reserves before the campaign and after its deposit.
pub proof fn lemma_reward_within_cap(
    v: StoreView,
    now: int,
    fee: i128,
    pool: Addr,
    unlock: int,
    target_lp: i128,
    bonus: i128,
    obs: PairReserves,
    dep: DepositReport,
)
    requires
        create_result(v, now, fee, pool, unlock, bonus, obs, dep) is Ok,
    ensures
        ({
            let post = create_next(v, now, fee, pool, unlock, target_lp, bonus, obs, dep);
            let r = reserves_in_order(v.config->Some_0, obs)->Some_0;
            let c = post.camps[post.camps.len() - 1];
            &&& 0 <= c.reward_flash
            &&& c.reward_flash <= x_max_of(
                r.0 as int,
                r.1 as int,
                dep.pair_usdc_balance as int,
                dep.pair_flash_balance as int,
            )
        }),
{
}

/// Once a campaign is created on a pool at height `now` with lock `unlock`, any
/// creation on that pool before height `now + unlock` fails with
/// `CampaignActiveForPair`; from that height on the expired marker has no effect:
/// a creation gives what it would give on the pool without a marker, which
/// `create_result` spells out (an id when the fee plan and deposit fit).
pub proof fn lemma_one_live_campaign_per_pool(
    v: StoreView,
    now: u32,
    fee: i128,
    pool: Addr,
    unlock: u32,
    target_lp: i128,
    bonus: i128,
    obs: PairReserves,
    dep: DepositReport,
    later: u32,
    fee2: i128,
    unlock2: u32,
    bonus2: i128,
    obs2: PairReserves,
    dep2: DepositReport,
)
    requires
        create_result(v, now as int, fee, pool, unlock as int, bonus, obs, dep) is Ok,
    ensures
        ({
            let post = create_next(v, now as int, fee, pool, unlock as int, target_lp, bonus, obs, dep);
            let again = create_result(post, later as int, fee2, pool, unlock2 as int, bonus2, obs2, dep2);
            &&& later < now + unlock ==> again == Err::<u32, FlashErr>(FlashErr::CampaignActiveForPair)
            &&& later >= now + unlock ==> again != Err::<u32, FlashErr>(FlashErr::CampaignActiveForPair)
            &&& later >= now + unlock ==> again == create_result(
                StoreView { markers: post.markers.remove(pool), ..post },
                later as int,
                fee2,
                pool,
                unlock2 as int,
                bonus2,
                obs2,
                dep2,
            )
        }),
{
    let post = create_next(v, now as int, fee, pool, unlock as int, target_lp, bonus, obs, dep);
    assert(marker_of(post, pool)->Some_0.end_ledger == now + unlock);
    if later >= now + unlock {
        let p = plan_result(post, later as int, fee2, pool, obs2);
        assert(p != Err::<crate::zap::ZapPlan, FlashErr>(FlashErr::CampaignActiveForPair));
    }
}

/// A successful claim cannot be repeated: claiming the same position again, at
/// the same height or later, fails with `NothingToClaim`.
pub proof fn lemma_claim_once(v: StoreView, now: int, id: int, user: Addr, later: int)
    requires
        store_wf(v),
        claim_result(v, now, id, user) is Ok,
        now <= later,
    ensures
        claim_result(claim_next(v, id, user), later, id, user) == Err::<Payout, FlashErr>(
            FlashErr::NothingToClaim,
        ),
{
    let i = position_index(v, id, user);
    let post = claim_next(v, id, user);
    assert forall|k: int| 0 <= k < post.positions.len() implies !is_position(
        #[trigger] post.positions[k],
        id,
        user,
    ) by {
        let k0 = if k < i {
            k
        } else {
            k + 1
        };
        if is_position(v.positions[k0], id, user) {
            lemma_position_unique(v, i, k0, id, user);
        }
    }
    assert(position_of(post, id, user) is None);
}

/// A successful join hands the depositor the campaign's next rank.
pub proof fn lemma_join_takes_next_rank(v: StoreView, now: int, id: u32, amount: i128, user: Addr, lp: i128)
    requires
        join_result(v, now, id as int, amount, user, lp) is Ok,
    ensures
        ({
            let post = join_next(v, now, id as int, user, lp);
            &&& position_of(post, id as int, user) is Some
            &&& position_of(post, id as int, user)->Some_0.rank == camp_of(v, id as int)->Some_0.joins + 1
            &&& camp_of(post, id as int)->Some_0.joins == camp_of(v, id as int)->Some_0.joins + 1
        }),
{
    let post = join_next(v, now, id as int, user, lp);
    let last = post.positions.len() - 1;
    assert(is_position(post.positions[last], id as int, user));
    assert(position_of(v, id as int, user) is None);
    let j = choose|j: int| 0 <= j < post.positions.len() && is_position(#[trigger] post.positions[j], id as int, user);
    if j < last {
        assert(post.positions[j] == v.positions[j]);
        assert(is_position(v.positions[j], id as int, user));
    }
}

/// After the first `n` of a run of joins on a campaign nobody had joined, the
/// campaign has handed out `n` ranks.
proof fn lemma_joins_counted(
    states: Seq<StoreView>,
    id: u32,
    nows: Seq<int>,
    amounts: Seq<i128>,
    users: Seq<Addr>,
    lps: Seq<i128>,
    n: int,
)
    requires
        states.len() == users.len() + 1,
        nows.len() == users.len(),
        amounts.len() == users.len(),
        lps.len() == users.len(),
        camp_of(states[0], id as int) is Some,
        camp_of(states[0], id as int)->Some_0.joins == 0,
        forall|k: int|
            0 <= k < users.len() ==> join_result(
                #[trigger] states[k],
                nows[k],
                id as int,
                amounts[k],
                users[k],
                lps[k],
            ) is Ok && states[k + 1] == join_next(states[k], nows[k], id as int, users[k], lps[k]),
        0 <= n <= users.len(),
    ensures
        camp_of(states[n], id as int) is Some,
        camp_of(states[n], id as int)->Some_0.joins == n,
    decreases n,
{
    if n > 0 {
        let m = n - 1;
        lemma_joins_counted(states, id, nows, amounts, users, lps, m);
        assert(join_result(states[m], nows[m], id as int, amounts[m], users[m], lps[m]) is Ok);
        lemma_join_takes_next_rank(states[m], nows[m], id, amounts[m], users[m], lps[m]);
    }
}

/// For joins one after another on one campaign that nobody had joined, the
/// `k`-th join (from zero) hands out rank `k + 1`, and after `n` joins the
/// campaign has handed out exactly `n` ranks.
pub proof fn lemma_ranks_in_join_order(
    states: Seq<StoreView>,
    id: u32,
    nows: Seq<int>,
    amounts: Seq<i128>,
    users: Seq<Addr>,
    lps: Seq<i128>,
)
    requires
        states.len() == users.len() + 1,
        nows.len() == users.len(),
        amounts.len() == users.len(),
        lps.len() == users.len(),
        camp_of(states[0], id as int) is Some,
        camp_of(states[0], id as int)->Some_0.joins == 0,
        forall|k: int|
            0 <= k < users.len() ==> join_result(
                #[trigger] states[k],
                nows[k],
                id as int,
                amounts[k],
                users[k],
                lps[k],
            ) is Ok && states[k + 1] == join_next(states[k], nows[k], id as int, users[k], lps[k]),
    ensures
        forall|k: int|
            0 <= k < users.len() ==> (#[trigger] position_of(states[k + 1], id as int, users[k]))->Some_0.rank
                == k + 1,
        camp_of(states[users.len() as int], id as int) is Some,
        camp_of(states[users.len() as int], id as int)->Some_0.joins == users.len(),
{
    assert forall|k: int| 0 <= k < users.len() implies (#[trigger] position_of(states[k + 1], id as int, users[k]))->Some_0.rank
        == k + 1 by {
        lemma_joins_counted(states, id, nows, amounts, users, lps, k);
        assert(join_result(states[k], nows[k], id as int, amounts[k], users[k], lps[k]) is Ok);
        lemma_join_takes_next_rank(states[k], nows[k], id, amounts[k], users[k], lps[k]);
    }
    lemma_joins_counted(states, id, nows, amounts, users, lps, users.len() as int);
}

/// Compounding when the stake re-mints to exactly what it was (no trading since
/// the last compound) changes nothing: the reward pool and the stake stay as
/// they were.
pub proof fn lemma_compound_without_fees(v: StoreView, id: int, lp_new: i128, gain: i128, h: HarvestReserves)
    requires
        compound_result(v, id, lp_new, gain, h) is Ok,
        lp_new == camp_of(v, id)->Some_0.stake_lp,
    ensures
        compound_next(v, id, lp_new, gain, h) == v,
{
    assert(compound_next(v, id, lp_new, gain, h).camps =~= v.camps);
}

/// A compound adds to the reward pool no more than the safe-emission cap over the
/// campaign pool's reserves before and after its harvest, and never takes from it.
pub proof fn lemma_compound_within_cap(v: StoreView, id: int, lp_new: i128, gain: i128, h: HarvestReserves)
    requires
        compound_result(v, id, lp_new, gain, h) is Ok,
    ensures
        ({
            let before = camp_of(v, id)->Some_0.reward_flash;
            let after = camp_of(compound_next(v, id, lp_new, gain, h), id)->Some_0.reward_flash;
            &&& before <= after
            &&& after - before <= x_max_of(
                h.usdc_before as int,
                h.flash_before as int,
                h.usdc_after as int,
                h.flash_after as int,
            )
        }),
{
}

/// At the unlock height a position with weight claims (when its payout fits in
/// 128 bits); one height earlier the claim fails with `TooEarly`.
pub proof fn lemma_claim_unlocks_at_end(v: StoreView, id: int, user: Addr)
    requires
        camp_of(v, id) is Some,
        position_of(v, id, user) is Some,
        position_of(v, id, user)->Some_0.weight > 0,
        claim_payout(camp_of(v, id)->Some_0, position_of(v, id, user)->Some_0) is Some,
    ensures
        ({
            let end = camp_of(v, id)->Some_0.end_ledger as int;
            &&& claim_result(v, end - 1, id, user) == Err::<Payout, FlashErr>(FlashErr::TooEarly)
            &&& claim_result(v, end, id, user) is Ok
        }),
{
}

} // verus!
