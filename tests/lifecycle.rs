use flash_campaign_manager::manager::{
    harvest_gain, DepositReport, FlashCampaignManager, HarvestReserves, PairReserves, Payout, SeedReport,
    DEFAULT_SURPLUS_BPS, DEFAULT_TTL_BUMP, DEFAULT_TTL_THRESH,
};
use flash_campaign_manager::storage::{
    clear_active_campaign_for_pair, get_active_campaign_for_pair, get_core_config, load_camp,
    save_camp, set_active_campaign_for_pair, set_core_config, ActiveCampaignInfo, Campaign,
    CoreConfig, Storage,
};
use flash_campaign_manager::FlashErr;

const ADMIN: u64 = 1;
const FLASH: u64 = 10;
const USDC: u64 = 11;
const CORE: u64 = 100;
const POOL: u64 = 200;
const FEE: i128 = 10_000;

/// Reserves around a harvest whose safe-emission cap is 48808:
/// isqrt(1100 * 10^6 * 10^6 / 1000) - 10^6.
fn around() -> HarvestReserves {
    HarvestReserves {
        usdc_before: 1000,
        flash_before: 1_000_000,
        usdc_after: 1100,
        flash_after: 1_000_000,
    }
}

fn seed() -> SeedReport {
    SeedReport {
        admin_flash_balance: 100_000_000,
        admin_usdc_balance: 1_000_000,
        core_pair: CORE,
        lp_minted: 10_000_000,
    }
}

fn seeded() -> FlashCampaignManager {
    let mut m = FlashCampaignManager::new();
    m.initialize(ADMIN, FLASH, USDC, 100_000_000, 1_000_000, seed()).unwrap();
    m
}

fn reserves() -> PairReserves {
    PairReserves { token0: USDC, token1: FLASH, reserve0: 1_000_000, reserve1: 100_000_000 }
}

/// Plans a campaign, reports the balanced deposit the plan calls for, and creates it.
fn create(
    m: &mut FlashCampaignManager,
    now: u32,
    pool: u64,
    unlock: u32,
    target_lp: i128,
    bonus: i128,
) -> Result<u32, FlashErr> {
    let plan = m.plan_campaign(now, FEE, pool, reserves())?;
    let dep = DepositReport {
        lp_minted: 1000,
        pair_usdc_balance: plan.reserve_usdc_after_swap + plan.liquidity_amount,
        pair_flash_balance: plan.reserve_flash_after_swap + plan.flash_needed,
    };
    m.create_campaign(now, FEE, pool, unlock, target_lp, bonus, reserves(), dep)
}

#[test]
fn test_init_native() {
    let unit: i128 = 10_000_000;
    let mut m = FlashCampaignManager::new();
    assert_eq!(m.get_core_config(), None);
    let report = SeedReport {
        admin_flash_balance: 10_000_000 * unit,
        admin_usdc_balance: 1_250_000 * unit,
        core_pair: CORE,
        lp_minted: 50_000_000_000 - 1000,
    };
    let pair = m.initialize(ADMIN, FLASH, USDC, 100_000 * unit, 250 * unit, report);
    assert_eq!(pair, Ok(CORE));
    let cfg = m.get_core_config().unwrap();
    assert_eq!(cfg.admin, ADMIN);
    assert_eq!(cfg.flash, FLASH);
    assert_eq!(cfg.usdc, USDC);
    assert_eq!(cfg.core_pair, Some(CORE));
    assert_eq!(cfg.next, 0);
    assert_eq!(cfg.surplus_bps, DEFAULT_SURPLUS_BPS);
    assert_eq!(cfg.ttl_thresh, DEFAULT_TTL_THRESH);
    assert_eq!(cfg.ttl_bump, DEFAULT_TTL_BUMP);
}

#[test]
fn initialize_errors() {
    let mut m = FlashCampaignManager::new();
    assert_eq!(m.initialize(ADMIN, FLASH, USDC, 0, 1, seed()), Err(FlashErr::Mad));
    assert_eq!(m.initialize(ADMIN, FLASH, USDC, 1, 0, seed()), Err(FlashErr::Maf));
    let poor = SeedReport { admin_flash_balance: 5, ..seed() };
    assert_eq!(m.initialize(ADMIN, FLASH, USDC, 6, 1, poor), Err(FlashErr::Maj));
    let poor = SeedReport { admin_usdc_balance: 5, ..seed() };
    assert_eq!(m.initialize(ADMIN, FLASH, USDC, 1, 6, poor), Err(FlashErr::Mak));
    let empty = SeedReport { lp_minted: 0, ..seed() };
    assert_eq!(m.initialize(ADMIN, FLASH, USDC, 1, 1, empty), Err(FlashErr::Mar));
    assert_eq!(m.get_core_config(), None);
    assert_eq!(m.initialize(ADMIN, FLASH, USDC, 1, 1, seed()), Ok(CORE));
    assert_eq!(m.initialize(ADMIN, FLASH, USDC, 1, 1, seed()), Err(FlashErr::AlreadyInit));
}

#[test]
fn create_campaign_records_capped_reward() {
    let mut m = seeded();
    let id = create(&mut m, 100, POOL, 10, 1000, 9000).unwrap();
    assert_eq!(id, 1);
    let c = m.get_campaign(1).unwrap();
    assert_eq!(c.pair, POOL);
    assert_eq!(c.duration, 10);
    assert_eq!(c.end_ledger, 110);
    assert_eq!(c.target_lp, 1000);
    assert_eq!(c.total_lp, 0);
    assert_eq!(c.total_weight, 0);
    // surplus is the swap output, 544024; the cap is isqrt(1010000 * 99902371 * 10^8 / 10^6) - 99902371
    assert_eq!(c.reward_flash, 544_024);
    assert_eq!(c.bonus_flash, 9000);
    assert_eq!(c.stake_lp, 0);
    assert_eq!(m.get_core_config().unwrap().next, 1);
    assert_eq!(
        m.get_active_campaign_for_pair(POOL),
        Some(ActiveCampaignInfo { campaign_id: 1, end_ledger: 110 })
    );
}

#[test]
fn create_campaign_reward_capped_by_price() {
    let mut m = seeded();
    // a donated reward-asset balance raises the surplus above the cap
    let plan = m.plan_campaign(0, FEE, POOL, reserves()).unwrap();
    let dep = DepositReport {
        lp_minted: 1000,
        pair_usdc_balance: plan.reserve_usdc_after_swap + plan.liquidity_amount,
        pair_flash_balance: plan.reserve_flash_after_swap + plan.flash_needed + 10_000,
    };
    m.create_campaign(0, FEE, POOL, 10, 1000, 0, reserves(), dep).unwrap();
    // rf1 = 99912371, root = isqrt(1010000 * 99912371 * 10^8 / 10^6) = 100454713
    assert_eq!(m.get_campaign(1).unwrap().reward_flash, 542_342);
}

#[test]
fn second_campaign_on_pool_waits_for_expiry() {
    let mut m = seeded();
    assert_eq!(create(&mut m, 100, POOL, 10, 1000, 0), Ok(1));
    assert_eq!(create(&mut m, 100, POOL, 10, 1000, 0), Err(FlashErr::CampaignActiveForPair));
    assert_eq!(create(&mut m, 109, POOL, 10, 1000, 0), Err(FlashErr::CampaignActiveForPair));
    assert_eq!(m.get_core_config().unwrap().next, 1);
    assert_eq!(create(&mut m, 105, POOL + 1, 10, 1000, 0), Ok(2));
    assert_eq!(create(&mut m, 110, POOL, 10, 1000, 0), Ok(3));
    assert_eq!(m.get_active_campaign_for_pair(POOL).unwrap().end_ledger, 120);
}

#[test]
fn create_campaign_errors() {
    let mut m = FlashCampaignManager::new();
    assert_eq!(m.plan_campaign(0, FEE, POOL, reserves()), Err(FlashErr::NoCorePair));
    let mut m = seeded();
    let wrong = PairReserves { token0: USDC, token1: 77, ..reserves() };
    assert_eq!(m.plan_campaign(0, FEE, POOL, wrong), Err(FlashErr::InvalidToken));
    assert_eq!(m.plan_campaign(0, 0, POOL, reserves()), Err(FlashErr::Math));
    let flipped = PairReserves { token0: FLASH, token1: USDC, reserve0: 100_000_000, reserve1: 1_000_000 };
    assert_eq!(m.plan_campaign(0, FEE, POOL, flipped), m.plan_campaign(0, FEE, POOL, reserves()));
    let plan = m.plan_campaign(0, FEE, POOL, reserves()).unwrap();
    let dep = DepositReport {
        lp_minted: 0,
        pair_usdc_balance: plan.reserve_usdc_after_swap + plan.liquidity_amount,
        pair_flash_balance: plan.reserve_flash_after_swap + plan.flash_needed,
    };
    assert_eq!(m.create_campaign(0, FEE, POOL, 10, 1000, 0, reserves(), dep), Err(FlashErr::Math));
    let dep = DepositReport { lp_minted: 1, ..dep };
    assert_eq!(m.create_campaign(0, FEE, POOL, 10, 1000, -1, reserves(), dep), Err(FlashErr::Math));
    assert_eq!(m.create_campaign(u32::MAX, FEE, POOL, 10, 1000, 0, reserves(), dep), Err(FlashErr::Math));
    assert_eq!(m.get_campaign(1), None);
    assert_eq!(m.create_campaign(0, FEE, POOL, 10, 1000, 0, reserves(), dep), Ok(1));
}

#[test]
fn earlier_depositor_outweighs_later_one() {
    let mut m = seeded();
    let id = create(&mut m, 0, POOL, 10, 1000, 0).unwrap();
    m.join_campaign(1, id, 2000, 7, 1000).unwrap();
    m.join_campaign(2, id, 1000, 8, 500).unwrap();
    let a = m.get_position(id, 7).unwrap();
    let b = m.get_position(id, 8).unwrap();
    assert_eq!(a.rank, 1);
    assert_eq!(b.rank, 2);
    assert_eq!(a.weight, 100_000_000);
    assert_eq!(b.weight, 12_500_000);
    assert!(a.weight > b.weight);
    assert_eq!(a.joined_ledger, 1);
    assert_eq!(b.lp, 500);
}

#[test]
fn ranks_follow_join_order() {
    let mut m = seeded();
    let id = create(&mut m, 0, POOL, 10, 1000, 0).unwrap();
    for user in 0..6u64 {
        m.join_campaign(1, id, 100, 50 + user, 100).unwrap();
    }
    for user in 0..6u64 {
        assert_eq!(m.get_position(id, 50 + user).unwrap().rank, user as u32 + 1);
    }
    assert_eq!(m.get_campaign(id).unwrap().joins, 6);
}

#[test]
fn totals_track_open_positions() {
    let mut m = seeded();
    let id = create(&mut m, 0, POOL, 10, 1000, 0).unwrap();
    m.join_campaign(1, id, 2000, 7, 1000).unwrap();
    m.join_campaign(1, id, 1000, 8, 500).unwrap();
    m.join_campaign(1, id, 1000, 9, 300).unwrap();
    let c = m.get_campaign(id).unwrap();
    let open = [7u64, 8, 9].map(|u| m.get_position(id, u).unwrap());
    assert_eq!(c.total_lp, open.iter().map(|p| p.lp).sum::<i128>());
    assert_eq!(c.total_weight, open.iter().map(|p| p.weight).sum::<i128>());
    m.claim(10, id, 8).unwrap();
    let c = m.get_campaign(id).unwrap();
    assert_eq!(c.total_lp, 1300);
    assert_eq!(c.total_weight, open[0].weight + open[2].weight);
    assert_eq!(c.claimed_lp, 500);
    assert_eq!(c.claimed_weight, open[1].weight);
}

#[test]
fn join_campaign_errors() {
    let mut m = seeded();
    let id = create(&mut m, 0, POOL, 10, 1000, 0).unwrap();
    assert_eq!(m.join_campaign(1, id, 0, 7, 10), Err(FlashErr::Maq));
    assert_eq!(m.join_campaign(1, 9, 10, 7, 10), Err(FlashErr::NoCampaign));
    assert_eq!(m.join_campaign(10, id, 10, 7, 10), Err(FlashErr::CampaignEnded));
    assert_eq!(m.join_campaign(1, id, 10, 7, 0), Err(FlashErr::Maw));
    assert_eq!(m.join_campaign(1, id, 10, 7, 10), Ok(()));
    assert_eq!(m.join_campaign(2, id, 10, 7, 10), Err(FlashErr::AlreadyJoined));
    assert_eq!(m.get_campaign(id).unwrap().joins, 1);
}

#[test]
fn claim_waits_for_unlock_height() {
    let mut m = seeded();
    let id = create(&mut m, 100, POOL, 10, 1000, 0).unwrap();
    m.join_campaign(101, id, 2000, 7, 1000).unwrap();
    assert_eq!(m.claim(109, id, 7), Err(FlashErr::TooEarly));
    assert!(m.claim(110, id, 7).is_ok());
}

#[test]
fn claim_pays_once() {
    let mut m = seeded();
    let id = create(&mut m, 0, POOL, 10, 1000, 0).unwrap();
    m.join_campaign(1, id, 2000, 7, 1000).unwrap();
    assert_eq!(m.claim(10, id, 7), Ok(Payout { flash: 544_024, lp: 1000 }));
    assert_eq!(m.claim(10, id, 7), Err(FlashErr::NothingToClaim));
    assert_eq!(m.claim(20, id, 7), Err(FlashErr::NothingToClaim));
    assert_eq!(m.get_position(id, 7), None);
}

#[test]
fn claim_shares_reward_and_bonus_by_weight() {
    let mut m = seeded();
    let id = create(&mut m, 0, POOL, 10, 1000, 9000).unwrap();
    m.join_campaign(1, id, 2000, 7, 1000).unwrap();
    m.join_campaign(1, id, 1000, 8, 500).unwrap();
    // weights 10^8 and 1.25 * 10^7 out of 1.125 * 10^8
    assert_eq!(m.claim(10, id, 7), Ok(Payout { flash: 483_576 + 8000, lp: 1000 }));
    assert_eq!(m.claim(10, id, 8), Ok(Payout { flash: 60_447 + 1000, lp: 500 }));
}

#[test]
fn claim_without_bonus_below_target() {
    let mut m = seeded();
    let id = create(&mut m, 0, POOL, 10, 5000, 9000).unwrap();
    m.join_campaign(1, id, 2000, 7, 1000).unwrap();
    assert_eq!(m.claim(10, id, 7), Ok(Payout { flash: 544_024, lp: 1000 }));
}

#[test]
fn claim_errors() {
    let mut m = seeded();
    let id = create(&mut m, 0, POOL, 10, 0, 0).unwrap();
    assert_eq!(m.claim(10, 9, 7), Err(FlashErr::NoCampaign));
    assert_eq!(m.claim(10, id, 7), Err(FlashErr::NothingToClaim));
    // a target of zero gives a contribution weight of zero
    m.join_campaign(1, id, 2000, 7, 1000).unwrap();
    assert_eq!(m.get_position(id, 7).unwrap().weight, 0);
    assert_eq!(m.claim(10, id, 7), Err(FlashErr::NothingToClaim));
}

#[test]
fn compound_without_fees_changes_nothing() {
    let mut m = seeded();
    let id = create(&mut m, 0, POOL, 10, 1000, 0).unwrap();
    m.compound(id, 500, 0, around()).unwrap();
    let before = m.get_campaign(id).unwrap();
    assert_eq!(before.stake_lp, 500);
    assert_eq!(m.fee_liquidity(id, 500), Ok(0));
    m.compound(id, 500, 777, around()).unwrap();
    let after = m.get_campaign(id).unwrap();
    assert_eq!(after, before);
}

#[test]
fn compound_adds_harvest_to_reward() {
    let mut m = seeded();
    let id = create(&mut m, 0, POOL, 10, 1000, 0).unwrap();
    m.compound(id, 500, 0, around()).unwrap();
    assert_eq!(m.fee_liquidity(id, 600), Ok(100));
    m.compound(id, 600, 1234, around()).unwrap();
    let c = m.get_campaign(id).unwrap();
    assert_eq!(c.stake_lp, 600);
    assert_eq!(c.reward_flash, 544_024 + 1234);
}

#[test]
fn compound_caps_harvest_by_price() {
    let mut m = seeded();
    let id = create(&mut m, 0, POOL, 10, 1000, 0).unwrap();
    m.compound(id, 500, 100_000, around()).unwrap();
    assert_eq!(m.get_campaign(id).unwrap().reward_flash, 544_024 + 48_808);
    let flat = HarvestReserves { usdc_before: 1, flash_before: 1, usdc_after: 1, flash_after: 1 };
    m.compound(id, 600, 1, flat).unwrap();
    let c = m.get_campaign(id).unwrap();
    assert_eq!(c.reward_flash, 544_024 + 48_808);
    assert_eq!(c.stake_lp, 600);
}

#[test]
fn compound_errors() {
    let mut m = seeded();
    let id = create(&mut m, 0, POOL, 10, 1000, 0).unwrap();
    assert_eq!(m.compound(9, 500, 0, around()), Err(FlashErr::NoCampaign));
    assert_eq!(m.compound(id, 0, 0, around()), Err(FlashErr::Mae));
    assert_eq!(m.fee_liquidity(id, 0), Err(FlashErr::Mae));
    assert_eq!(m.compound(id, 500, -1, around()), Err(FlashErr::Math));
    let empty = HarvestReserves { usdc_before: 0, ..around() };
    assert_eq!(m.compound(id, 500, 10, empty), Err(FlashErr::Math));
    assert_eq!(m.get_campaign(id).unwrap().stake_lp, 0);
}

#[test]
fn harvest_gain_swaps_stable_leg() {
    let cfg = seeded().get_core_config().unwrap();
    let pool = PairReserves { token0: USDC, token1: FLASH, reserve0: 1000, reserve1: 1000 };
    // 50 reward asset directly, and 500 stable units buy 498 * 1000 / 1498 = 332
    assert_eq!(harvest_gain(&cfg, &pool, 500, 50), Some(382));
    assert_eq!(harvest_gain(&cfg, &pool, 0, 50), Some(50));
    let other = PairReserves { token0: 77, token1: FLASH, reserve0: 1000, reserve1: 1000 };
    assert_eq!(harvest_gain(&cfg, &other, 500, 50), Some(50));
}

#[test]
fn admin_setters() {
    let mut m = FlashCampaignManager::new();
    assert_eq!(m.set_surplus_bps(ADMIN, 100), Err(FlashErr::NoCorePair));
    let mut m = seeded();
    assert_eq!(m.set_surplus_bps(2, 100), Err(FlashErr::NotAdmin));
    assert_eq!(m.set_surplus_bps(ADMIN, 10_000), Err(FlashErr::BpsOutOfRange));
    assert_eq!(m.set_surplus_bps(ADMIN, 100), Ok(()));
    assert_eq!(m.get_core_config().unwrap().surplus_bps, 100);
    assert_eq!(m.set_ttl(2, 1, 2), Err(FlashErr::NotAdmin));
    assert_eq!(m.set_ttl(ADMIN, 1, 2), Ok(()));
    let cfg = m.get_core_config().unwrap();
    assert_eq!((cfg.ttl_thresh, cfg.ttl_bump), (1, 2));
    let plan = m.plan_campaign(0, 1000, POOL, reserves()).unwrap();
    assert_eq!(plan.swap_amount - plan.s_min, 10);
}

#[test]
fn storage_records() {
    let mut s = Storage::new();
    assert_eq!(get_core_config(&s), None);
    let cfg = CoreConfig {
        admin: 1,
        flash: 2,
        usdc: 3,
        core_pair: None,
        next: 0,
        surplus_bps: 0,
        ttl_thresh: 0,
        ttl_bump: 0,
    };
    set_core_config(&mut s, cfg);
    assert_eq!(get_core_config(&s), Some(cfg));
    let c = Campaign {
        pair: 5,
        duration: 1,
        end_ledger: 2,
        target_lp: 3,
        total_lp: 0,
        total_weight: 0,
        reward_flash: 4,
        bonus_flash: 0,
        stake_lp: 0,
        joins: 0,
        claimed_lp: 0,
        claimed_weight: 0,
    };
    assert_eq!(load_camp(&s, 1), None);
    save_camp(&mut s, 1, c);
    assert_eq!(load_camp(&s, 1), Some(c));
    save_camp(&mut s, 1, Campaign { reward_flash: 9, ..c });
    assert_eq!(load_camp(&s, 1).unwrap().reward_flash, 9);
    assert_eq!(load_camp(&s, 0), None);
    let info = ActiveCampaignInfo { campaign_id: 1, end_ledger: 2 };
    set_active_campaign_for_pair(&mut s, 5, info);
    assert_eq!(get_active_campaign_for_pair(&s, 5), Some(info));
    clear_active_campaign_for_pair(&mut s, 5);
    assert_eq!(get_active_campaign_for_pair(&s, 5), None);
}
