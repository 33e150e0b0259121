use cp_amm::fee::{DynamicFeeStruct, FeeMode, PoolFeesStruct};
use cp_amm::{PoolError, TradeDirection};

fn plain_fees(numerator: u64, protocol: u8, partner: u8, referral: u8) -> PoolFeesStruct {
    PoolFeesStruct {
        trade_fee_numerator: numerator,
        protocol_fee_percent: protocol,
        partner_fee_percent: partner,
        referral_fee_percent: referral,
        dynamic_fee: DynamicFeeStruct {
            initialized: 0,
            max_volatility_accumulator: 0,
            variable_fee_control: 0,
            bin_step: 0,
            filter_period: 0,
            decay_period: 0,
            reduction_factor: 0,
            last_update_timestamp: 0,
            bin_step_u128: 0,
            sqrt_price_reference: 0,
            volatility_accumulator: 0,
            volatility_reference: 0,
        },
    }
}

#[test]
fn test_fee_split_exact_values() {
    // 1% fee on a 1e9 amount with a referral present:
    // total 10_000_000, protocol gross 2_000_000, referral 400_000,
    // protocol net 1_600_000, partner 4_000_000, lp 4_000_000
    let fees = plain_fees(10_000_000, 20, 50, 20);
    let result = fees.get_fee_on_amount(1_000_000_000, true, false).unwrap();
    assert_eq!(result.amount, 990_000_000);
    assert_eq!(result.protocol_fee, 1_600_000);
    assert_eq!(result.referral_fee, 400_000);
    assert_eq!(result.partner_fee, 4_000_000);
    assert_eq!(result.lp_fee, 4_000_000);
    // conservation: the four shares carry the whole fee
    assert_eq!(
        result.lp_fee + result.protocol_fee + result.partner_fee + result.referral_fee,
        10_000_000
    );
    assert!(result.referral_fee <= result.protocol_fee);
}

#[test]
fn test_fee_split_without_referral() {
    let fees = plain_fees(10_000_000, 20, 50, 20);
    let result = fees.get_fee_on_amount(1_000_000_000, false, false).unwrap();
    assert_eq!(result.referral_fee, 0);
    // without a referral, three shares carry the whole fee
    assert_eq!(
        result.lp_fee + result.protocol_fee + result.partner_fee,
        10_000_000
    );
}

#[test]
fn test_fee_exact_out_grosses_up() {
    // 50% fee: to hand the curve 1_000 the trader must bring 2_000
    let fees = plain_fees(500_000_000, 0, 0, 0);
    let result = fees.get_fee_on_amount(1_000, false, true).unwrap();
    assert_eq!(result.amount, 2_000);
    assert_eq!(result.lp_fee, 1_000);
    // grossing up near the 64-bit limit fails instead of truncating
    let too_big = fees.get_fee_on_amount(u64::MAX / 2 + 1, false, true);
    assert_eq!(too_big, Err(PoolError::TypeCastFailed));
}

#[test]
fn test_fee_mode_table() {
    // both-token mode charges the output side
    let m = FeeMode::get_fee_mode(0, TradeDirection::AtoB, false).unwrap();
    assert!(!m.fees_on_input && !m.fees_on_token_a);
    let m = FeeMode::get_fee_mode(0, TradeDirection::BtoA, true).unwrap();
    assert!(!m.fees_on_input && m.fees_on_token_a && m.has_referral);
    // only-B mode keeps the fee on token B for both directions
    let m = FeeMode::get_fee_mode(1, TradeDirection::AtoB, false).unwrap();
    assert!(!m.fees_on_input && !m.fees_on_token_a);
    let m = FeeMode::get_fee_mode(1, TradeDirection::BtoA, false).unwrap();
    assert!(m.fees_on_input && !m.fees_on_token_a);
}

#[test]
fn test_fee_mode_invalid_byte() {
    assert_eq!(
        FeeMode::get_fee_mode(2, TradeDirection::AtoB, false),
        Err(PoolError::InvalidCollectFeeMode)
    );
}

#[test]
fn test_dynamic_fee_adds_to_static() {
    let mut fees = plain_fees(10_000_000, 0, 0, 0);
    fees.dynamic_fee.initialized = 1;
    fees.dynamic_fee.bin_step = 10;
    fees.dynamic_fee.bin_step_u128 = 1;
    fees.dynamic_fee.variable_fee_control = 1_000;
    fees.dynamic_fee.volatility_accumulator = 30_000;
    // variable fee = ceil((30_000 * 10)^2 * 1_000 / 1e11) = 900
    let total = fees.get_total_trading_fee().unwrap();
    assert_eq!(total, 10_000_900);
    assert!(fees.validate());
}

#[test]
fn test_dynamic_fee_reference_update() {
    let mut df = DynamicFeeStruct {
        initialized: 1,
        max_volatility_accumulator: 1_000_000,
        variable_fee_control: 0,
        bin_step: 1,
        filter_period: 10,
        decay_period: 100,
        reduction_factor: 5_000,
        last_update_timestamp: 0,
        bin_step_u128: 1 << 60,
        sqrt_price_reference: 0,
        volatility_accumulator: 40_000,
        volatility_reference: 0,
    };
    // inside the filter period nothing changes
    let mut early = df;
    early.update_references(1 << 64, 5).unwrap();
    assert_eq!(early.sqrt_price_reference, 0);
    // past the filter period but inside the decay period the accumulator
    // is halved into the reference
    df.update_references(1 << 64, 50).unwrap();
    assert_eq!(df.sqrt_price_reference, 1 << 64);
    assert_eq!(df.volatility_reference, 20_000);
    // past the decay period it resets
    let mut late = df;
    late.last_update_timestamp = 0;
    late.update_references(1 << 64, 200).unwrap();
    assert_eq!(late.volatility_reference, 0);
}

#[test]
fn test_validate_rejects_bad_percents() {
    let fees = plain_fees(10_000_000, 101, 0, 0);
    assert!(!fees.validate());
    let fees = plain_fees(500_000_001, 0, 0, 0);
    assert!(!fees.validate());
}
