use cp_amm::curve::{
    get_delta_amount_a_unsigned, get_delta_amount_b_unsigned, get_next_sqrt_price,
    get_next_sqrt_price_from_input,
};
use cp_amm::{PoolError, Rounding};

const ONE: u128 = 1 << 64;

#[test]
fn test_delta_amount_a_exact() {
    // L * (upper - lower) / (lower * upper)
    // = (2^65 * 2^64) / (2^64 * 2^65) = 1
    let amount = get_delta_amount_a_unsigned(ONE, 2 * ONE, 2 * ONE, Rounding::Down).unwrap();
    assert_eq!(amount, 1);
    // half a token rounds differently per mode
    let down = get_delta_amount_a_unsigned(ONE, 2 * ONE, ONE, Rounding::Down).unwrap();
    let up = get_delta_amount_a_unsigned(ONE, 2 * ONE, ONE, Rounding::Up).unwrap();
    assert_eq!(down, 0);
    assert_eq!(up, 1);
}

#[test]
fn test_delta_amount_a_overflow_is_rejected() {
    let res = get_delta_amount_a_unsigned(1, 2, u128::MAX, Rounding::Down);
    assert_eq!(res, Err(PoolError::MathOverflow));
}

#[test]
fn test_delta_amount_b_exact() {
    // L * (upper - lower) / 2^128 = (2^64 * 2^64) / 2^128 = 1
    let amount = get_delta_amount_b_unsigned(ONE, 2 * ONE, ONE, Rounding::Down).unwrap();
    assert_eq!(amount, 1);
    let down = get_delta_amount_b_unsigned(ONE, ONE + ONE / 2, ONE, Rounding::Down).unwrap();
    let up = get_delta_amount_b_unsigned(ONE, ONE + ONE / 2, ONE, Rounding::Up).unwrap();
    assert_eq!(down, 0);
    assert_eq!(up, 1);
}

#[test]
fn test_next_sqrt_price_from_input_directions() {
    let liquidity: u128 = 1 << 100;
    // token A in: the price falls
    let down = get_next_sqrt_price_from_input(ONE, liquidity, 1_000_000, true).unwrap();
    assert!(down < ONE);
    // token B in: the price rises by exactly (amount << 128) / L
    let up = get_next_sqrt_price_from_input(ONE, liquidity, 1_000_000, false).unwrap();
    assert_eq!(up, ONE + ((1_000_000u128 << 28)));
    // zero input moves nothing in the A direction
    let still = get_next_sqrt_price_from_input(ONE, liquidity, 0, true).unwrap();
    assert_eq!(still, ONE);
}

#[test]
fn test_next_sqrt_price_overflow_is_rejected() {
    // pushing the price beyond 128 bits must fail, not wrap
    let res = get_next_sqrt_price_from_input(u128::MAX, 1, 1, false);
    assert_eq!(res, Err(PoolError::TypeCastFailed));
}

#[test]
fn test_next_sqrt_price_exact_out() {
    let liquidity: u128 = 1 << 100;
    // exact output of token B: the price falls by ceil(amount << 128 / L)
    let next = get_next_sqrt_price(ONE, liquidity, 1_000_000, true, true).unwrap();
    assert_eq!(next, ONE - (1_000_000u128 << 28));
    // exact output of token A: the price rises
    let next_up = get_next_sqrt_price(ONE, liquidity, 1_000_000, false, true).unwrap();
    assert!(next_up > ONE);
    // asking for more token A than the pool holds fails
    let res = get_next_sqrt_price(ONE, 1 << 70, u64::MAX, false, true);
    assert_eq!(res, Err(PoolError::MathOverflow));
}
