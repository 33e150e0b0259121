use cp_amm::constants::LIQUIDITY_MAX;
use cp_amm::math::{mul_div, mul_shr, shl_div, shl_div_256, mul_div_u256};
use cp_amm::safe_math::{
    safe_add_u64, safe_sub_u64, safe_add_u128, safe_sub_u128, safe_mul_u128, safe_div_u128,
    safe_shl_u128, safe_shr_u128,
};
use cp_amm::u256::U256;
use cp_amm::utils_math::{safe_mul_div_cast, safe_mul_div_cast_u64, safe_mul_shr_cast};
use cp_amm::{PoolError, Rounding};

#[test]
fn test_basic_math() {
    let liquidity = LIQUIDITY_MAX;
    let quote_1 = safe_shr_u128(liquidity, 64).unwrap();
    let quote_2 = safe_div_u128(liquidity, safe_shl_u128(1, 64).unwrap()).unwrap();
    assert_eq!(quote_1, quote_2);
}

#[test]
fn test_safe_math_errors() {
    assert_eq!(safe_add_u64(u64::MAX, 1), Err(PoolError::MathOverflow));
    assert_eq!(safe_sub_u64(3, 5), Err(PoolError::MathOverflow));
    assert_eq!(safe_add_u128(u128::MAX, 1), Err(PoolError::MathOverflow));
    assert_eq!(safe_sub_u128(3, 5), Err(PoolError::MathOverflow));
    assert_eq!(safe_mul_u128(u128::MAX, 2), Err(PoolError::MathOverflow));
    assert_eq!(safe_div_u128(1, 0), Err(PoolError::MathOverflow));
    assert_eq!(safe_shl_u128(2, 127), Err(PoolError::MathOverflow));
    assert_eq!(safe_shr_u128(1, 128), Err(PoolError::MathOverflow));
    assert_eq!(safe_add_u64(40, 2), Ok(42));
    assert_eq!(safe_mul_u128(1 << 64, 1 << 63), Ok(1 << 127));
}

#[test]
fn test_mul_div_rounding() {
    assert_eq!(mul_div(10, 10, 3, Rounding::Down), Some(33));
    assert_eq!(mul_div(10, 10, 3, Rounding::Up), Some(34));
    assert_eq!(mul_div(10, 9, 3, Rounding::Up), Some(30));
    assert_eq!(mul_div(1, 1, 0, Rounding::Down), None);
    // the mathematical result exceeds 128 bits
    assert_eq!(mul_div(1 << 127, 4, 1, Rounding::Down), None);
    // but a wide intermediate alone is fine
    assert_eq!(mul_div(1 << 127, 4, 4, Rounding::Down), Some(1 << 127));
}

#[test]
fn test_mul_shr_and_shl_div() {
    assert_eq!(mul_shr(1 << 70, 1 << 70, 64, Rounding::Down), Some(1 << 76));
    assert_eq!(mul_shr(3, 5, 3, Rounding::Down), Some(1));
    assert_eq!(mul_shr(3, 5, 3, Rounding::Up), Some(2));
    assert_eq!(shl_div(5, 2, 64, Rounding::Down), Some(5 << 63));
    assert_eq!(shl_div(1, 0, 10, Rounding::Down), None);
    let wide = shl_div_256(1_000_000, 1, 128).unwrap();
    assert_eq!(wide.hi, 1_000_000);
    assert_eq!(wide.lo, 0);
}

#[test]
fn test_u256_mul_div_roundtrip() {
    let x: u128 = 0xDEADBEEF_00000000_12345678;
    let y: u128 = 0xFEDCBA98_76543210;
    let prod = U256::mul_u128(x, y);
    let (q, r) = prod.div_rem(U256::from_u128(y));
    assert_eq!(q.to_u128(), Some(x));
    assert!(r.is_zero());
    let (q2, r2) = prod.div_rem(U256::from_u128(x));
    assert_eq!(q2.to_u128(), Some(y));
    assert!(r2.is_zero());
}

#[test]
fn test_u256_add_sub_edges() {
    let max = U256 { lo: u128::MAX, hi: u128::MAX };
    assert!(max.checked_add(U256::from_u64(1)).is_none());
    let a = U256 { lo: 0, hi: 1 };
    let b = U256 { lo: 1, hi: 0 };
    let d = a.checked_sub(b).unwrap();
    assert_eq!(d.lo, u128::MAX);
    assert_eq!(d.hi, 0);
    assert!(b.checked_sub(a).is_none());
}

#[test]
fn test_mul_div_u256_wide_denominator() {
    // (2^100 * 2^100) / 2^150 == 2^50
    let denominator = U256::pow2_exec(150);
    let q = mul_div_u256(1 << 100, 1 << 100, denominator, Rounding::Down).unwrap();
    assert_eq!(q.to_u128(), Some(1 << 50));
    assert_eq!(mul_div_u256(1, 1, U256::zero(), Rounding::Down), None);
}

#[test]
fn test_casting_helpers() {
    assert_eq!(safe_mul_div_cast(10, 10, 3, Rounding::Up), Ok(34));
    assert_eq!(
        safe_mul_div_cast(u128::MAX, 2, 1, Rounding::Down),
        Err(PoolError::MathOverflow)
    );
    assert_eq!(
        safe_mul_div_cast(u64::MAX as u128 + 1, 1, 1, Rounding::Down),
        Err(PoolError::TypeCastFailed)
    );
    assert_eq!(safe_mul_div_cast_u64(6, 7, 2), Ok(21));
    assert_eq!(safe_mul_div_cast_u64(1, 1, 0), Err(PoolError::MathOverflow));
    assert_eq!(
        safe_mul_div_cast_u64(u64::MAX, u64::MAX, 1),
        Err(PoolError::TypeCastFailed)
    );
    assert_eq!(safe_mul_shr_cast(1 << 40, 1 << 20, 6, Rounding::Down), Ok(1 << 54));
}
