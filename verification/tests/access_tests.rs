use cp_amm::constants::{MAX_SQRT_PRICE, MIN_SQRT_PRICE};
use cp_amm::fee::{DynamicFeeStruct, PoolFeesStruct};
use cp_amm::pool::{Pool, PoolMetrics, Pubkey, RewardInfo};
use cp_amm::pool_action_access::{
    get_pool_access_validator, ActivationType, PoolActionAccess,
};
use cp_amm::u256::U256;

fn zero_key() -> Pubkey {
    Pubkey { hi: 0, lo: 0 }
}

fn zero_u256() -> U256 {
    U256 { lo: 0, hi: 0 }
}

fn zero_reward_info() -> RewardInfo {
    RewardInfo {
        initialized: 0,
        reward_token_flag: 0,
        mint: zero_key(),
        vault: zero_key(),
        funder: zero_key(),
        reward_duration: 0,
        reward_duration_end: 0,
        reward_rate: 0,
        reward_per_token_stored: zero_u256(),
        last_update_time: 0,
        cumulative_seconds_with_empty_liquidity_reward: 0,
    }
}

fn gated_pool(activation_point: u64, whitelisted_vault: Pubkey, pool_status: u8) -> Pool {
    Pool {
        pool_fees: PoolFeesStruct {
            trade_fee_numerator: 0,
            protocol_fee_percent: 0,
            partner_fee_percent: 0,
            referral_fee_percent: 0,
            dynamic_fee: DynamicFeeStruct {
                initialized: 0,
                max_volatility_accumulator: 0,
                variable_fee_control: 0,
                bin_step: 0,
                filter_period: 0,
                decay_period: 0,
                reduction_factor: 0,
                last_update_timestamp: 0,
                bin_step_u128: 0,
                sqrt_price_reference: 0,
                volatility_accumulator: 0,
                volatility_reference: 0,
            },
        },
        token_a_mint: zero_key(),
        token_b_mint: zero_key(),
        token_a_vault: zero_key(),
        token_b_vault: zero_key(),
        whitelisted_vault,
        partner: zero_key(),
        liquidity: 1 << 64,
        protocol_a_fee: 0,
        protocol_b_fee: 0,
        partner_a_fee: 0,
        partner_b_fee: 0,
        sqrt_min_price: MIN_SQRT_PRICE,
        sqrt_max_price: MAX_SQRT_PRICE,
        sqrt_price: 1 << 64,
        activation_point,
        activation_type: 0,
        pool_status,
        token_a_flag: 0,
        token_b_flag: 0,
        collect_fee_mode: 0,
        pool_type: 0,
        fee_a_per_liquidity: zero_u256(),
        fee_b_per_liquidity: zero_u256(),
        permanent_lock_liquidity: 0,
        metrics: PoolMetrics {
            total_lp_a_fee: 0,
            total_lp_b_fee: 0,
            total_protocol_a_fee: 0,
            total_protocol_b_fee: 0,
            total_partner_a_fee: 0,
            total_partner_b_fee: 0,
            total_position: 0,
        },
        reward_infos: [zero_reward_info(), zero_reward_info()],
    }
}

#[test]
fn test_activation_type_codes() {
    assert_eq!(ActivationType::try_from_u8(0), Ok(ActivationType::Slot));
    assert_eq!(ActivationType::try_from_u8(1), Ok(ActivationType::Timestamp));
    assert!(ActivationType::try_from_u8(2).is_err());
}

#[test]
fn test_swap_gated_until_activation() {
    let whitelisted = Pubkey { hi: 5, lo: 5 };
    let stranger = Pubkey { hi: 6, lo: 6 };
    let pool = gated_pool(100, whitelisted, 0);
    // before the activation point only the whitelisted vault may buy
    let validator = get_pool_access_validator(&pool, 50).unwrap();
    assert!(!validator.can_swap(&stranger));
    assert!(validator.can_swap(&whitelisted));
    assert!(validator.can_add_liquidity());
    assert!(validator.can_remove_liquidity());
    assert!(validator.can_create_position());
    // from the activation point on everyone may swap
    let validator = get_pool_access_validator(&pool, 100).unwrap();
    assert!(validator.can_swap(&stranger));
}

#[test]
fn test_disabled_pool_only_allows_removal() {
    let pool = gated_pool(0, zero_key(), 1);
    let validator = get_pool_access_validator(&pool, 10).unwrap();
    assert!(!validator.can_swap(&zero_key()));
    assert!(!validator.can_add_liquidity());
    assert!(!validator.can_create_position());
    assert!(validator.can_remove_liquidity());
}
