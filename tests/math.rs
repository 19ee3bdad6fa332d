use flash_campaign_manager::math::int_sqrt;
use flash_campaign_manager::rewards::{
    compute_contribution_weight, compute_rank_weight, compute_score,
};
use flash_campaign_manager::zap::{
    plan_zap, safe_emission_cap, split_fee, stake_swap, swap_output,
};

#[test]
fn int_sqrt_small_values() {
    let expected: [(u128, u128); 10] =
        [(0, 0), (1, 1), (2, 1), (3, 1), (4, 2), (8, 2), (9, 3), (15, 3), (16, 4), (17, 4)];
    for (x, r) in expected {
        assert_eq!(int_sqrt(x), r, "isqrt({})", x);
    }
}

#[test]
fn int_sqrt_large_values() {
    assert_eq!(int_sqrt(u128::MAX), u64::MAX as u128);
    assert_eq!(int_sqrt(110_000), 331);
    let big: u128 = 1_000_000_000_000_000_000;
    assert_eq!(int_sqrt(big * big), big);
    assert_eq!(int_sqrt(big * big - 1), big - 1);
}

#[test]
fn split_fee_follows_break_even_formula() {
    // sqrt(100 * 1100) = 331.66..., so s_min = 231; extra = 1000 * 500 / 10000 = 50
    let s = split_fee(1000, 100, 500).unwrap();
    assert_eq!(s.s_min, 231);
    assert_eq!(s.swap_amount, 281);
    assert_eq!(s.liquidity_amount, 719);
    assert_eq!(s.swap_amount + s.liquidity_amount, 1000);
}

#[test]
fn split_fee_clamps_swap_to_fee() {
    let s = split_fee(1000, 100, 9999).unwrap();
    assert_eq!(s.s_min, 231);
    assert_eq!(s.swap_amount, 1000);
    assert_eq!(s.liquidity_amount, 0);
}

#[test]
fn split_fee_rejects_bad_inputs() {
    assert!(split_fee(0, 100, 500).is_none());
    assert!(split_fee(-5, 100, 500).is_none());
    assert!(split_fee(1000, -1, 500).is_none());
    assert!(split_fee(i128::MAX, i128::MAX, 500).is_none());
}

#[test]
fn swap_output_takes_pool_fee() {
    // fee on 54 is ceil(162 / 1000) = 1; 53 * 100000 / 153
    assert_eq!(swap_output(54, 100, 100_000), Some(34640));
    assert_eq!(swap_output(1000, 1000, 1000), Some(499));
    assert_eq!(swap_output(0, 1000, 1000), Some(0));
    assert_eq!(swap_output(0, 0, 1000), None);
    assert_eq!(swap_output(-1, 1000, 1000), None);
}

#[test]
fn stake_swap_halves_the_stake() {
    // the half pays the pool fee: 498 of 500 go in, 498 * 1000 / 1498 come out
    assert_eq!(stake_swap(1000, 1000, 1000), Some((500, 332)));
    assert_eq!(stake_swap(1001, 1000, 1000), Some((500, 332)));
    assert_eq!(stake_swap(0, 1000, 1000), None);
}

#[test]
fn plan_zap_on_seed_pool() {
    let p = plan_zap(10_000, 1_000_000, 100_000_000, 500).unwrap();
    assert_eq!(p.s_min, 4987);
    assert_eq!(p.swap_amount, 5487);
    assert_eq!(p.liquidity_amount, 4513);
    assert_eq!(p.flash_out, 544_024);
    assert_eq!(p.reserve_usdc_after_swap, 1_005_487);
    assert_eq!(p.reserve_flash_after_swap, 99_455_976);
    assert_eq!(p.flash_needed, 446_395);
}

#[test]
fn plan_zap_rejects_empty_reward_reserve() {
    assert!(plan_zap(10_000, 1_000_000, 0, 500).is_none());
}

#[test]
fn safe_emission_cap_caps_surplus() {
    // root = isqrt(110 * 95000 * 100000 / 100) = 102225, x_max = 7225
    assert_eq!(safe_emission_cap(100, 100_000, 110, 95_000, 10_000), Some(7225));
    assert_eq!(safe_emission_cap(100, 100_000, 110, 90_000, 10_000), Some(9498));
    assert_eq!(safe_emission_cap(100, 100_000, 110, 90_000, 5000), Some(5000));
}

#[test]
fn safe_emission_cap_zero_when_root_below_reserve() {
    assert_eq!(safe_emission_cap(100, 100, 100, 200, 10), Some(0));
}

#[test]
fn safe_emission_cap_rejects_bad_inputs() {
    assert_eq!(safe_emission_cap(0, 100, 100, 100, 10), None);
    assert_eq!(safe_emission_cap(100, 100, 100, 100, -1), None);
    assert_eq!(safe_emission_cap(1, i128::MAX, i128::MAX, i128::MAX, 1), None);
}

#[test]
fn rank_weight_decays_with_rank() {
    assert_eq!(compute_rank_weight(0, 2), 0);
    assert_eq!(compute_rank_weight(1, 2), 100_000_000);
    assert_eq!(compute_rank_weight(2, 2), 25_000_000);
    assert_eq!(compute_rank_weight(3, 2), 11_111_111);
    assert_eq!(compute_rank_weight(2, 0), 100_000_000);
    assert_eq!(compute_rank_weight(10, 9), 0);
    assert_eq!(compute_rank_weight(1, u32::MAX), 100_000_000);
    assert_eq!(compute_rank_weight(u32::MAX, u32::MAX), 0);
}

#[test]
fn contribution_weight_is_capped_share_of_target() {
    assert_eq!(compute_contribution_weight(500, 1000), 5000);
    assert_eq!(compute_contribution_weight(1000, 1000), 10_000);
    assert_eq!(compute_contribution_weight(2000, 1000), 10_000);
    assert_eq!(compute_contribution_weight(1, 3), 3333);
    assert_eq!(compute_contribution_weight(0, 1000), 0);
    assert_eq!(compute_contribution_weight(5, 0), 0);
    assert_eq!(compute_contribution_weight(-5, 10), 0);
}

#[test]
fn contribution_weight_exact_for_large_amounts() {
    assert_eq!(compute_contribution_weight(i128::MAX / 2, i128::MAX), 4999);
    assert_eq!(compute_contribution_weight(i128::MAX - 1, i128::MAX), 9999);
}

#[test]
fn score_scales_product() {
    assert_eq!(compute_score(100_000_000, 10_000), 100_000_000);
    assert_eq!(compute_score(25_000_000, 5000), 12_500_000);
    assert_eq!(compute_score(3, 3333), 0);
    assert_eq!(compute_score(i128::MAX, 2), 0);
}
