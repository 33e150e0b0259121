use cp_amm::constants::{LIQUIDITY_MAX, MAX_SQRT_PRICE, MIN_SQRT_PRICE};
use cp_amm::curve::get_initialize_amounts;
use cp_amm::fee::{DynamicFeeStruct, FeeMode, PoolFeesStruct};
use cp_amm::pool::{Pool, PoolMetrics, Pubkey, RewardInfo};
use cp_amm::u256::U256;
use cp_amm::{PoolError, TradeDirection};

fn zero_key() -> Pubkey {
    Pubkey { hi: 0, lo: 0 }
}

fn zero_u256() -> U256 {
    U256 { lo: 0, hi: 0 }
}

fn zero_reward_info() -> RewardInfo {
    RewardInfo {
        initialized: 0,
        reward_token_flag: 0,
        mint: zero_key(),
        vault: zero_key(),
        funder: zero_key(),
        reward_duration: 0,
        reward_duration_end: 0,
        reward_rate: 0,
        reward_per_token_stored: zero_u256(),
        last_update_time: 0,
        cumulative_seconds_with_empty_liquidity_reward: 0,
    }
}

fn zero_fees() -> PoolFeesStruct {
    PoolFeesStruct {
        trade_fee_numerator: 0,
        protocol_fee_percent: 0,
        partner_fee_percent: 0,
        referral_fee_percent: 0,
        dynamic_fee: DynamicFeeStruct {
            initialized: 0,
            max_volatility_accumulator: 0,
            variable_fee_control: 0,
            bin_step: 0,
            filter_period: 0,
            decay_period: 0,
            reduction_factor: 0,
            last_update_timestamp: 0,
            bin_step_u128: 0,
            sqrt_price_reference: 0,
            volatility_accumulator: 0,
            volatility_reference: 0,
        },
    }
}

fn base_pool(liquidity: u128, sqrt_price: u128) -> Pool {
    Pool {
        pool_fees: zero_fees(),
        token_a_mint: zero_key(),
        token_b_mint: zero_key(),
        token_a_vault: zero_key(),
        token_b_vault: zero_key(),
        whitelisted_vault: zero_key(),
        partner: zero_key(),
        liquidity,
        protocol_a_fee: 0,
        protocol_b_fee: 0,
        partner_a_fee: 0,
        partner_b_fee: 0,
        sqrt_min_price: MIN_SQRT_PRICE,
        sqrt_max_price: MAX_SQRT_PRICE,
        sqrt_price,
        activation_point: 0,
        activation_type: 0,
        pool_status: 0,
        token_a_flag: 0,
        token_b_flag: 0,
        collect_fee_mode: 0,
        pool_type: 0,
        fee_a_per_liquidity: zero_u256(),
        fee_b_per_liquidity: zero_u256(),
        permanent_lock_liquidity: 0,
        metrics: PoolMetrics {
            total_lp_a_fee: 0,
            total_lp_b_fee: 0,
            total_protocol_a_fee: 0,
            total_protocol_b_fee: 0,
            total_partner_a_fee: 0,
            total_partner_b_fee: 0,
            total_position: 0,
        },
        reward_infos: [zero_reward_info(), zero_reward_info()],
    }
}

#[test]
fn test_swap_basic() {
    let sqrt_min_price = MIN_SQRT_PRICE;
    let sqrt_max_price = MAX_SQRT_PRICE;
    let sqrt_price = u64::MAX as u128;
    let liquidity = LIQUIDITY_MAX;

    let (_token_a_amount, _token_b_amount) =
        get_initialize_amounts(sqrt_min_price, sqrt_max_price, sqrt_price, liquidity).unwrap();

    let mut pool = base_pool(liquidity, sqrt_price);

    let amount_in = 100000000;

    let is_referral = false;
    let trade_direction = TradeDirection::AtoB;
    let fee_mode = FeeMode::get_fee_mode(pool.collect_fee_mode, trade_direction, is_referral)
        .unwrap();
    let swap_result = pool
        .get_swap_result(amount_in, &fee_mode, trade_direction, 0, false)
        .unwrap();

    println!("result {:?}", swap_result);

    pool.apply_swap_result(&swap_result, &fee_mode, 0).unwrap();

    let reverse_direction = TradeDirection::BtoA;
    let reverse_fee_mode =
        FeeMode::get_fee_mode(pool.collect_fee_mode, reverse_direction, is_referral).unwrap();
    let swap_result_referse = pool
        .get_swap_result(
            swap_result.output_amount,
            &reverse_fee_mode,
            reverse_direction,
            0,
            false,
        )
        .unwrap();

    println!("reverse {:?}", swap_result_referse);
    assert!(swap_result_referse.output_amount <= amount_in);
}

#[test]
fn test_swap_mid_range_round_trip() {
    // zero fees, mid-range price: the output is positive, the price falls,
    // and the reverse swap cannot return more than went in
    let liquidity: u128 = 100_000_000_000_000_000_000;
    let sqrt_price = MAX_SQRT_PRICE / 2;
    let mut pool = base_pool(liquidity, sqrt_price);

    let amount_in: u64 = 100_000_000;
    let fee_mode = FeeMode::get_fee_mode(0, TradeDirection::AtoB, false).unwrap();
    let result = pool
        .get_swap_result(amount_in, &fee_mode, TradeDirection::AtoB, 0, false)
        .unwrap();
    assert!(result.output_amount > 0);
    assert!(result.next_sqrt_price < sqrt_price);

    pool.apply_swap_result(&result, &fee_mode, 0).unwrap();
    assert_eq!(pool.sqrt_price, result.next_sqrt_price);

    let reverse_fee_mode = FeeMode::get_fee_mode(0, TradeDirection::BtoA, false).unwrap();
    let reverse = pool
        .get_swap_result(
            result.output_amount,
            &reverse_fee_mode,
            TradeDirection::BtoA,
            0,
            false,
        )
        .unwrap();
    assert!(reverse.output_amount <= amount_in);
}

#[test]
fn test_swap_price_range_violation() {
    // a pool sitting at its lower bound cannot sell any more token B
    let mut pool = base_pool(1 << 64, MIN_SQRT_PRICE);
    pool.sqrt_price = MIN_SQRT_PRICE;
    let fee_mode = FeeMode::get_fee_mode(0, TradeDirection::AtoB, false).unwrap();
    let res = pool.get_swap_result(1_000_000_000, &fee_mode, TradeDirection::AtoB, 0, false);
    assert_eq!(res, Err(PoolError::PriceRangeViolation));
}

#[test]
fn test_swap_exact_out_charges_more_than_exact_in_pays() {
    // with a 1% fee, the exact-out quote for what an exact-in swap returned
    // can never be cheaper than what that swap paid
    let liquidity: u128 = 100_000_000_000_000_000_000;
    let sqrt_price = MAX_SQRT_PRICE / 2;
    let mut pool = base_pool(liquidity, sqrt_price);
    pool.pool_fees.trade_fee_numerator = 10_000_000;

    let amount_in: u64 = 50_000_000;
    let fee_mode = FeeMode::get_fee_mode(0, TradeDirection::AtoB, false).unwrap();
    let exact_in = pool
        .get_swap_result(amount_in, &fee_mode, TradeDirection::AtoB, 0, false)
        .unwrap();
    let exact_out = pool
        .get_swap_result(exact_in.output_amount, &fee_mode, TradeDirection::AtoB, 0, true)
        .unwrap();
    assert_eq!(exact_out.output_amount, exact_in.output_amount);
    assert!(exact_out.input_amount > 0);
    assert!(exact_out.next_sqrt_price <= sqrt_price);
}

#[test]
fn test_apply_swap_result_books_fees_once() {
    let liquidity: u128 = 100_000_000_000_000_000_000;
    let sqrt_price = MAX_SQRT_PRICE / 2;
    let mut pool = base_pool(liquidity, sqrt_price);
    pool.pool_fees.trade_fee_numerator = 10_000_000;
    pool.pool_fees.protocol_fee_percent = 20;
    pool.pool_fees.partner_fee_percent = 50;

    let fee_mode = FeeMode::get_fee_mode(0, TradeDirection::AtoB, false).unwrap();
    let result = pool
        .get_swap_result(200_000_000, &fee_mode, TradeDirection::AtoB, 0, false)
        .unwrap();
    assert!(!fee_mode.fees_on_token_a);
    pool.apply_swap_result(&result, &fee_mode, 7).unwrap();
    assert_eq!(pool.protocol_b_fee, result.protocol_fee);
    assert_eq!(pool.partner_b_fee, result.partner_fee);
    assert_eq!(pool.metrics.total_lp_b_fee, result.lp_fee as u128);
    assert_eq!(pool.metrics.total_protocol_b_fee, result.protocol_fee);
    assert_eq!(pool.metrics.total_partner_b_fee, result.partner_fee);
    assert_eq!(pool.protocol_a_fee, 0);
    assert_eq!(pool.partner_a_fee, 0);
}

#[test]
fn test_get_max_amount_in_saturates() {
    let pool = base_pool(LIQUIDITY_MAX, u64::MAX as u128);
    let max_a = pool.get_max_amount_in(TradeDirection::AtoB).unwrap();
    assert_eq!(max_a, u64::MAX);
}

#[test]
fn test_claim_protocol_fee_zeroes_balances() {
    let mut pool = base_pool(1 << 64, u64::MAX as u128);
    pool.protocol_a_fee = 123;
    pool.protocol_b_fee = 456;
    let (a, b) = pool.claim_protocol_fee();
    assert_eq!((a, b), (123, 456));
    assert_eq!(pool.protocol_a_fee, 0);
    assert_eq!(pool.protocol_b_fee, 0);
    // claiming again is a no-op yielding zero
    let (a2, b2) = pool.claim_protocol_fee();
    assert_eq!((a2, b2), (0, 0));
}

#[test]
fn test_claim_partner_fee_caps_at_balance() {
    let mut pool = base_pool(1 << 64, u64::MAX as u128);
    pool.partner_a_fee = 100;
    pool.partner_b_fee = 50;
    let (a, b) = pool.claim_partner_fee(70, 200).unwrap();
    assert_eq!((a, b), (70, 50));
    assert_eq!(pool.partner_a_fee, 30);
    assert_eq!(pool.partner_b_fee, 0);
}

#[test]
fn test_get_swap_result_is_pure() {
    // the read-only computation hides no state: two identical calls give
    // identical results and leave the pool untouched
    let liquidity: u128 = 100_000_000_000_000_000_000;
    let sqrt_price = MAX_SQRT_PRICE / 2;
    let mut pool = base_pool(liquidity, sqrt_price);
    pool.pool_fees.trade_fee_numerator = 10_000_000;
    let fee_mode = FeeMode::get_fee_mode(0, TradeDirection::AtoB, false).unwrap();
    let first = pool
        .get_swap_result(123_456_789, &fee_mode, TradeDirection::AtoB, 0, false)
        .unwrap();
    let second = pool
        .get_swap_result(123_456_789, &fee_mode, TradeDirection::AtoB, 0, false)
        .unwrap();
    assert_eq!(first, second);
    assert_eq!(pool.sqrt_price, sqrt_price);
}
