use cp_amm::fee::{DynamicFeeStruct, PoolFeesStruct};
use cp_amm::pool::{Pool, PoolMetrics, Pubkey, RewardInfo};
use cp_amm::position::{Position, UserRewardInfo};
use cp_amm::u256::U256;
use cp_amm::Rounding;

fn zero_key() -> Pubkey {
    Pubkey { hi: 0, lo: 0 }
}

fn zero_u256() -> U256 {
    U256 { lo: 0, hi: 0 }
}

fn zero_reward_info() -> RewardInfo {
    RewardInfo {
        initialized: 0,
        reward_token_flag: 0,
        mint: zero_key(),
        vault: zero_key(),
        funder: zero_key(),
        reward_duration: 0,
        reward_duration_end: 0,
        reward_rate: 0,
        reward_per_token_stored: zero_u256(),
        last_update_time: 0,
        cumulative_seconds_with_empty_liquidity_reward: 0,
    }
}

fn range_pool(liquidity: u128, min: u128, price: u128, max: u128) -> Pool {
    Pool {
        pool_fees: PoolFeesStruct {
            trade_fee_numerator: 0,
            protocol_fee_percent: 0,
            partner_fee_percent: 0,
            referral_fee_percent: 0,
            dynamic_fee: DynamicFeeStruct {
                initialized: 0,
                max_volatility_accumulator: 0,
                variable_fee_control: 0,
                bin_step: 0,
                filter_period: 0,
                decay_period: 0,
                reduction_factor: 0,
                last_update_timestamp: 0,
                bin_step_u128: 0,
                sqrt_price_reference: 0,
                volatility_accumulator: 0,
                volatility_reference: 0,
            },
        },
        token_a_mint: zero_key(),
        token_b_mint: zero_key(),
        token_a_vault: zero_key(),
        token_b_vault: zero_key(),
        whitelisted_vault: zero_key(),
        partner: zero_key(),
        liquidity,
        protocol_a_fee: 0,
        protocol_b_fee: 0,
        partner_a_fee: 0,
        partner_b_fee: 0,
        sqrt_min_price: min,
        sqrt_max_price: max,
        sqrt_price: price,
        activation_point: 0,
        activation_type: 0,
        pool_status: 0,
        token_a_flag: 0,
        token_b_flag: 0,
        collect_fee_mode: 0,
        pool_type: 0,
        fee_a_per_liquidity: zero_u256(),
        fee_b_per_liquidity: zero_u256(),
        permanent_lock_liquidity: 0,
        metrics: PoolMetrics {
            total_lp_a_fee: 0,
            total_lp_b_fee: 0,
            total_protocol_a_fee: 0,
            total_protocol_b_fee: 0,
            total_partner_a_fee: 0,
            total_partner_b_fee: 0,
            total_position: 0,
        },
        reward_infos: [zero_reward_info(), zero_reward_info()],
    }
}

fn empty_position() -> Position {
    Position {
        unlocked_liquidity: 0,
        permanent_locked_liquidity: 0,
        fee_a_per_token_checkpoint: zero_u256(),
        fee_b_per_token_checkpoint: zero_u256(),
        fee_a_pending: 0,
        fee_b_pending: 0,
        reward_infos: [
            UserRewardInfo { reward_per_token_checkpoint: zero_u256(), reward_pendings: 0 },
            UserRewardInfo { reward_per_token_checkpoint: zero_u256(), reward_pendings: 0 },
        ],
    }
}

const ONE: u128 = 1 << 64;

#[test]
fn test_modify_liquidity_amounts_exact() {
    // price 1.0, range [0.5, 2.0] in square roots, delta 2^64:
    // token A = L*(max-price)/(price*max) = 2^64*2^64/(2^64*2^65) = 1/2
    // token B = L*(price-min)/2^128 = 2^64*2^63/2^128 = 1/2
    let pool = range_pool(ONE, ONE / 2, ONE, 2 * ONE);
    let down = pool.get_amounts_for_modify_liquidity(ONE, Rounding::Down).unwrap();
    assert_eq!((down.token_a_amount, down.token_b_amount), (0, 0));
    let up = pool.get_amounts_for_modify_liquidity(ONE, Rounding::Up).unwrap();
    assert_eq!((up.token_a_amount, up.token_b_amount), (1, 1));
}

#[test]
fn test_apply_add_then_remove_liquidity() {
    let mut pool = range_pool(ONE, ONE / 2, ONE, 2 * ONE);
    let mut position = empty_position();
    pool.apply_add_liquidity(&mut position, 1_000).unwrap();
    assert_eq!(pool.liquidity, ONE + 1_000);
    assert_eq!(position.unlocked_liquidity, 1_000);
    pool.apply_remove_liquidity(&mut position, 400).unwrap();
    assert_eq!(pool.liquidity, ONE + 600);
    assert_eq!(position.unlocked_liquidity, 600);
    // removing more than the position holds fails and changes nothing
    assert!(pool.apply_remove_liquidity(&mut position, 601).is_err());
    assert_eq!(pool.liquidity, ONE + 600);
    assert_eq!(position.unlocked_liquidity, 600);
}

#[test]
fn test_add_liquidity_credits_pending_fees_first() {
    let mut pool = range_pool(ONE, ONE / 2, ONE, 2 * ONE);
    let mut position = empty_position();
    position.add_liquidity(1 << 40).unwrap();
    // the pool accumulated 2 fee units per liquidity unit since the last sync
    pool.fee_a_per_liquidity = U256 { lo: 0, hi: 2 };
    pool.apply_add_liquidity(&mut position, 5).unwrap();
    assert_eq!(position.fee_a_pending, 2 << 40);
    assert_eq!(position.fee_a_per_token_checkpoint, pool.fee_a_per_liquidity);
    assert_eq!(position.unlocked_liquidity, (1 << 40) + 5);
}

#[test]
fn test_metrics_position_counters() {
    let mut pool = range_pool(ONE, ONE / 2, ONE, 2 * ONE);
    pool.metrics.inc_position().unwrap();
    pool.metrics.inc_position().unwrap();
    assert_eq!(pool.metrics.total_position, 2);
    pool.metrics.rec_position().unwrap();
    assert_eq!(pool.metrics.total_position, 1);
    pool.metrics.rec_position().unwrap();
    assert!(pool.metrics.rec_position().is_err());
}

#[test]
fn test_accumulate_permanent_locked_liquidity() {
    let mut pool = range_pool(ONE, ONE / 2, ONE, 2 * ONE);
    pool.accumulate_permanent_locked_liquidity(700).unwrap();
    pool.accumulate_permanent_locked_liquidity(42).unwrap();
    assert_eq!(pool.permanent_lock_liquidity, 742);
    assert!(pool.accumulate_permanent_locked_liquidity(u128::MAX).is_err());
    assert_eq!(pool.permanent_lock_liquidity, 742);
}

#[test]
fn test_pool_initialize_sets_state() {
    let mut pool = range_pool(0, ONE / 2, ONE, 2 * ONE);
    let fees = pool.pool_fees;
    pool.initialize(
        fees,
        zero_key(),
        zero_key(),
        zero_key(),
        zero_key(),
        zero_key(),
        Pubkey { hi: 1, lo: 1 },
        ONE / 2,
        2 * ONE,
        ONE,
        55,
        1,
        0,
        0,
        12_345,
        1,
        0,
    );
    assert_eq!(pool.liquidity, 12_345);
    assert_eq!(pool.sqrt_price, ONE);
    assert_eq!(pool.activation_point, 55);
    assert_eq!(pool.collect_fee_mode, 1);
    assert_eq!(pool.partner, Pubkey { hi: 1, lo: 1 });
}
