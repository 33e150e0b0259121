//! Checked multiply-divide helpers that narrow their result to a token or
//! rate width, failing on overflow instead of truncating.

use vstd::prelude::*;
use vstd::arithmetic::power2::pow2;
use crate::math::{mul_div, mul_div_spec, mul_shr, shl_div};
use crate::{PoolError, Rounding};

verus! {

/// `(x * y) / denominator`, narrowed to a token amount.
pub fn safe_mul_div_cast(x: u128, y: u128, denominator: u128, rounding: Rounding) -> (res: Result<
    u64,
    PoolError,
>)
    ensures
        match res {
            Ok(v) => denominator > 0 && v == mul_div_spec(
                x as nat,
                y as nat,
                denominator as nat,
                rounding,
            ),
            Err(e) => {
                ||| (denominator == 0 && e == PoolError::MathOverflow)
                ||| (denominator > 0 && mul_div_spec(x as nat, y as nat, denominator as nat,
                    rounding) > u128::MAX && e == PoolError::MathOverflow)
                ||| (denominator > 0 && u64::MAX < mul_div_spec(x as nat, y as nat,
                    denominator as nat, rounding) <= u128::MAX && e == PoolError::TypeCastFailed)
            },
        },
{
    let wide = match mul_div(x, y, denominator, rounding) {
        Some(v) => v,
        None => {
            return Err(PoolError::MathOverflow);
        },
    };
    if wide > u64::MAX as u128 {
        Err(PoolError::TypeCastFailed)
    } else {
        Ok(wide as u64)
    }
}

/// `(x * y) >> offset`, narrowed to a token amount.
pub fn safe_mul_shr_cast(x: u128, y: u128, offset: u8, rounding: Rounding) -> (res: Result<
    u64,
    PoolError,
>)
    ensures
        match res {
            Ok(v) => v == mul_div_spec(x as nat, y as nat, pow2(offset as nat), rounding),
            Err(e) => {
                ||| (mul_div_spec(x as nat, y as nat, pow2(offset as nat), rounding) > u128::MAX
                    && e == PoolError::MathOverflow)
                ||| (u64::MAX < mul_div_spec(x as nat, y as nat, pow2(offset as nat), rounding)
                    <= u128::MAX && e == PoolError::TypeCastFailed)
            },
        },
{
    let wide = match mul_shr(x, y, offset, rounding) {
        Some(v) => v,
        None => {
            return Err(PoolError::MathOverflow);
        },
    };
    if wide > u64::MAX as u128 {
        Err(PoolError::TypeCastFailed)
    } else {
        Ok(wide as u64)
    }
}

/// `(x * y) / denominator` over 64-bit inputs, rounded down.
pub fn safe_mul_div_cast_u64(x: u64, y: u64, denominator: u64) -> (res: Result<u64, PoolError>)
    ensures
        match res {
            Ok(v) => denominator > 0 && v == (x as nat * y as nat) / denominator as nat,
            Err(e) => {
                ||| (denominator == 0 && e == PoolError::MathOverflow)
                ||| (denominator > 0 && (x as nat * y as nat) / denominator as nat > u64::MAX && e
                    == PoolError::TypeCastFailed)
            },
        },
{
    if denominator == 0 {
        return Err(PoolError::MathOverflow);
    }
    proof {
        assert((x as nat) * (y as nat) <= 0xFFFFFFFFFFFFFFFFnat * 0xFFFFFFFFFFFFFFFFnat)
            by (nonlinear_arith)
            requires
                (x as nat) <= 0xFFFFFFFFFFFFFFFFnat,
                (y as nat) <= 0xFFFFFFFFFFFFFFFFnat,
        ;
    }
    let result = (x as u128) * (y as u128) / (denominator as u128);
    if result > u64::MAX as u128 {
        Err(PoolError::TypeCastFailed)
    } else {
        Ok(result as u64)
    }
}

/// `(x << offset) / y`, kept at rate width.
pub fn safe_shl_div_cast(x: u128, y: u128, offset: u8, rounding: Rounding) -> (res: Result<
    u128,
    PoolError,
>)
    ensures
        match res {
            Ok(v) => y > 0 && v == mul_div_spec(x as nat, pow2(offset as nat), y as nat, rounding),
            Err(e) => e == PoolError::MathOverflow && (y == 0 || mul_div_spec(
                x as nat,
                pow2(offset as nat),
                y as nat,
                rounding,
            ) > u128::MAX),
        },
{
    match shl_div(x, y, offset, rounding) {
        Some(v) => Ok(v),
        None => Err(PoolError::MathOverflow),
    }
}

} // verus!
