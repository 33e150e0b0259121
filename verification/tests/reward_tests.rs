use cp_amm::constants::{MAX_SQRT_PRICE, MIN_SQRT_PRICE};
use cp_amm::fee::{DynamicFeeStruct, PoolFeesStruct};
use cp_amm::pool::{Pool, PoolMetrics, Pubkey, RewardInfo};
use cp_amm::u256::U256;
use cp_amm::PoolError;

fn zero_key() -> Pubkey {
    Pubkey { hi: 0, lo: 0 }
}

fn zero_u256() -> U256 {
    U256 { lo: 0, hi: 0 }
}

fn zero_reward_info() -> RewardInfo {
    RewardInfo {
        initialized: 0,
        reward_token_flag: 0,
        mint: zero_key(),
        vault: zero_key(),
        funder: zero_key(),
        reward_duration: 0,
        reward_duration_end: 0,
        reward_rate: 0,
        reward_per_token_stored: zero_u256(),
        last_update_time: 0,
        cumulative_seconds_with_empty_liquidity_reward: 0,
    }
}

fn base_pool(liquidity: u128) -> Pool {
    Pool {
        pool_fees: PoolFeesStruct {
            trade_fee_numerator: 0,
            protocol_fee_percent: 0,
            partner_fee_percent: 0,
            referral_fee_percent: 0,
            dynamic_fee: DynamicFeeStruct {
                initialized: 0,
                max_volatility_accumulator: 0,
                variable_fee_control: 0,
                bin_step: 0,
                filter_period: 0,
                decay_period: 0,
                reduction_factor: 0,
                last_update_timestamp: 0,
                bin_step_u128: 0,
                sqrt_price_reference: 0,
                volatility_accumulator: 0,
                volatility_reference: 0,
            },
        },
        token_a_mint: zero_key(),
        token_b_mint: zero_key(),
        token_a_vault: zero_key(),
        token_b_vault: zero_key(),
        whitelisted_vault: zero_key(),
        partner: zero_key(),
        liquidity,
        protocol_a_fee: 0,
        protocol_b_fee: 0,
        partner_a_fee: 0,
        partner_b_fee: 0,
        sqrt_min_price: MIN_SQRT_PRICE,
        sqrt_max_price: MAX_SQRT_PRICE,
        sqrt_price: 1 << 64,
        activation_point: 0,
        activation_type: 0,
        pool_status: 0,
        token_a_flag: 0,
        token_b_flag: 0,
        collect_fee_mode: 0,
        pool_type: 0,
        fee_a_per_liquidity: zero_u256(),
        fee_b_per_liquidity: zero_u256(),
        permanent_lock_liquidity: 0,
        metrics: PoolMetrics {
            total_lp_a_fee: 0,
            total_lp_b_fee: 0,
            total_protocol_a_fee: 0,
            total_protocol_b_fee: 0,
            total_partner_a_fee: 0,
            total_partner_b_fee: 0,
            total_position: 0,
        },
        reward_infos: [zero_reward_info(), zero_reward_info()],
    }
}

#[test]
fn test_reward_empty_liquidity_carry_forward() {
    // a campaign of 1_000_000 over 100 seconds against an empty pool:
    // after the window, all 100 seconds are carried forward, the
    // accumulator is untouched, and the ineligible reward returns the
    // whole funded amount
    let mut pool = base_pool(0);
    pool.initialize_reward(0, zero_key(), zero_key(), zero_key(), 100, 0)
        .unwrap();
    pool.fund_reward(0, 1_000_000, false, 0).unwrap();
    // rate is (1_000_000 << 64) / 100, an exact division
    assert_eq!(pool.reward_infos[0].reward_rate, 10_000u128 << 64);
    assert_eq!(pool.reward_infos[0].reward_duration_end, 100);

    pool.update_rewards(100).unwrap();
    assert_eq!(
        pool.reward_infos[0].cumulative_seconds_with_empty_liquidity_reward,
        100
    );
    assert_eq!(pool.reward_infos[0].reward_per_token_stored, zero_u256());

    let ineligible = pool.claim_ineligible_reward(0).unwrap();
    assert_eq!(ineligible, 1_000_000);
    assert_eq!(
        pool.reward_infos[0].cumulative_seconds_with_empty_liquidity_reward,
        0
    );
}

#[test]
fn test_reward_accrues_against_liquidity() {
    let mut pool = base_pool(1 << 64);
    pool.initialize_reward(0, zero_key(), zero_key(), zero_key(), 100, 0)
        .unwrap();
    pool.fund_reward(0, 1_000_000, false, 0).unwrap();
    pool.update_rewards(40).unwrap();
    // delta = (40 * rate << 128) / liquidity
    //       = 40 * 10_000 * 2^64 * 2^128 / 2^64 = 400_000 * 2^128
    assert_eq!(pool.reward_infos[0].reward_per_token_stored.hi, 400_000);
    assert_eq!(pool.reward_infos[0].reward_per_token_stored.lo, 0);
    assert_eq!(pool.reward_infos[0].last_update_time, 40);
    assert_eq!(
        pool.reward_infos[0].cumulative_seconds_with_empty_liquidity_reward,
        0
    );
    // past the window end the accrual clamps
    pool.update_rewards(1_000).unwrap();
    assert_eq!(pool.reward_infos[0].last_update_time, 100);
    assert_eq!(pool.reward_infos[0].reward_per_token_stored.hi, 1_000_000);
}

#[test]
fn test_fund_reward_mid_window_folds_leftover() {
    let mut pool = base_pool(0);
    pool.initialize_reward(1, zero_key(), zero_key(), zero_key(), 100, 0)
        .unwrap();
    pool.fund_reward(1, 1_000_000, false, 0).unwrap();
    // halfway through, 500_000 is unspent; funding 300_000 more makes the
    // new window distribute 800_000 over a fresh 100 seconds
    let applied = pool.fund_reward(1, 300_000, false, 50).unwrap();
    assert_eq!(applied, 300_000);
    assert_eq!(pool.reward_infos[1].reward_rate, 8_000u128 << 64);
    assert_eq!(pool.reward_infos[1].reward_duration_end, 150);
}

#[test]
fn test_reward_validation_errors() {
    let mut pool = base_pool(0);
    assert_eq!(
        pool.initialize_reward(2, zero_key(), zero_key(), zero_key(), 100, 0),
        Err(PoolError::InvalidRewardIndex)
    );
    assert_eq!(
        pool.initialize_reward(0, zero_key(), zero_key(), zero_key(), 0, 0),
        Err(PoolError::InvalidRewardDuration)
    );
    assert_eq!(
        pool.fund_reward(0, 1, false, 0),
        Err(PoolError::RewardUninitialized)
    );
    pool.initialize_reward(0, zero_key(), zero_key(), zero_key(), 100, 0)
        .unwrap();
    assert_eq!(
        pool.initialize_reward(0, zero_key(), zero_key(), zero_key(), 100, 0),
        Err(PoolError::RewardInitialized)
    );
    assert_eq!(
        pool.claim_ineligible_reward(5),
        Err(PoolError::InvalidRewardIndex)
    );
}

#[test]
fn test_is_valid_funder_accepts_admin_and_funder() {
    let mut ri = zero_reward_info();
    let funder = Pubkey { hi: 1, lo: 2 };
    let admin = Pubkey { hi: 9, lo: 9 };
    let stranger = Pubkey { hi: 3, lo: 4 };
    ri.init_reward(zero_key(), zero_key(), funder, 100, 0);
    assert!(ri.is_valid_funder(funder, admin));
    assert!(ri.is_valid_funder(admin, admin));
    assert!(!ri.is_valid_funder(stranger, admin));
    assert!(ri.initialized());
}
