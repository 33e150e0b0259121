//! Checked integer arithmetic that fails explicitly instead of wrapping.
//!
//! Every operation either returns the exact mathematical result or
//! `PoolError::MathOverflow`; nothing truncates silently.

use vstd::prelude::*;
use vstd::arithmetic::power2::{pow2, lemma_pow2_pos, lemma_pow2_strictly_increases};
use vstd::arithmetic::div_mod::lemma_fundamental_div_mod;
use crate::PoolError;

verus! {

pub fn safe_add_u64(a: u64, b: u64) -> (res: Result<u64, PoolError>)
    ensures
        match res {
            Ok(v) => v == a + b,
            Err(e) => a + b > u64::MAX && e == PoolError::MathOverflow,
        },
{
    if u64::MAX - a >= b {
        Ok(a + b)
    } else {
        Err(PoolError::MathOverflow)
    }
}

pub fn safe_sub_u64(a: u64, b: u64) -> (res: Result<u64, PoolError>)
    ensures
        match res {
            Ok(v) => b <= a && v == a - b,
            Err(e) => b > a && e == PoolError::MathOverflow,
        },
{
    if a >= b {
        Ok(a - b)
    } else {
        Err(PoolError::MathOverflow)
    }
}

pub fn safe_add_u128(a: u128, b: u128) -> (res: Result<u128, PoolError>)
    ensures
        match res {
            Ok(v) => v == a + b,
            Err(e) => a + b > u128::MAX && e == PoolError::MathOverflow,
        },
{
    if u128::MAX - a >= b {
        Ok(a + b)
    } else {
        Err(PoolError::MathOverflow)
    }
}

pub fn safe_sub_u128(a: u128, b: u128) -> (res: Result<u128, PoolError>)
    ensures
        match res {
            Ok(v) => b <= a && v == a - b,
            Err(e) => b > a && e == PoolError::MathOverflow,
        },
{
    if a >= b {
        Ok(a - b)
    } else {
        Err(PoolError::MathOverflow)
    }
}

pub fn safe_mul_u128(a: u128, b: u128) -> (res: Result<u128, PoolError>)
    ensures
        match res {
            Ok(v) => v == a * b,
            Err(e) => a * b > u128::MAX && e == PoolError::MathOverflow,
        },
{
    if a == 0 {
        return Ok(0);
    }
    let q = u128::MAX / a;
    proof {
        lemma_fundamental_div_mod(u128::MAX as int, a as int);
        if b <= q {
            assert(a * b <= u128::MAX) by (nonlinear_arith)
                requires
                    b <= q,
                    q == u128::MAX as int / a as int,
                    u128::MAX as int == a * q + u128::MAX as int % a as int,
                    (u128::MAX as int) % (a as int) >= 0,
                    a > 0,
            ;
        } else {
            assert(a * b > u128::MAX) by (nonlinear_arith)
                requires
                    b >= q + 1,
                    u128::MAX as int == a * q + u128::MAX as int % a as int,
                    (u128::MAX as int) % (a as int) < a,
                    a > 0,
            ;
        }
    }
    if b <= q {
        Ok(a * b)
    } else {
        Err(PoolError::MathOverflow)
    }
}

pub fn safe_div_u128(a: u128, b: u128) -> (res: Result<u128, PoolError>)
    ensures
        match res {
            Ok(v) => b > 0 && v == a / b,
            Err(e) => b == 0 && e == PoolError::MathOverflow,
        },
{
    if b == 0 {
        Err(PoolError::MathOverflow)
    } else {
        Ok(a / b)
    }
}

/// `2^k` as a `u128`.
pub fn pow2_u128(k: u8) -> (r: u128)
    requires
        k < 128,
    ensures
        r == pow2(k as nat),
        r >= 1,
{
    let mut r: u128 = 1;
    let mut j: u8 = 0;
    proof {
        vstd::arithmetic::power2::lemma2_to64();
    }
    while j < k
        invariant
            j <= k,
            k < 128,
            r == pow2(j as nat),
        decreases k - j,
    {
        proof {
            lemma_pow2_bound_u128((j + 1) as nat);
            vstd::arithmetic::power2::lemma_pow2_unfold((j + 1) as nat);
        }
        r = r * 2;
        j = j + 1;
    }
    proof {
        lemma_pow2_pos(k as nat);
    }
    r
}

/// `a << k`, failing when a shifted-out bit would be lost.
pub fn safe_shl_u128(a: u128, k: u8) -> (res: Result<u128, PoolError>)
    ensures
        match res {
            Ok(v) => k < 128 && v == (a as nat) * pow2(k as nat) && v <= u128::MAX,
            Err(e) => (k >= 128 || (a as nat) * pow2(k as nat) > u128::MAX) && e
                == PoolError::MathOverflow,
        },
{
    if k >= 128 {
        return Err(PoolError::MathOverflow);
    }
    let p = pow2_u128(k);
    match safe_mul_u128(a, p) {
        Ok(v) => Ok(v),
        Err(e) => Err(e),
    }
}

/// `a >> k`, failing when the shift distance reaches the full width.
pub fn safe_shr_u128(a: u128, k: u8) -> (res: Result<u128, PoolError>)
    ensures
        match res {
            Ok(v) => k < 128 && v == (a as nat) / pow2(k as nat),
            Err(e) => k >= 128 && e == PoolError::MathOverflow,
        },
{
    if k >= 128 {
        return Err(PoolError::MathOverflow);
    }
    let p = pow2_u128(k);
    Ok(a / p)
}

/// `2^e` fits in a `u128` for `e <= 127`.
proof fn lemma_pow2_bound_u128(e: nat)
    requires
        e < 128,
    ensures
        pow2(e) <= u128::MAX / 2 + 1,
{
    if e < 127 {
        lemma_pow2_strictly_increases(e, 127);
    }
    assert(pow2(127) == 0x80000000000000000000000000000000nat) by {
        vstd::arithmetic::power2::lemma2_to64();
        vstd::arithmetic::power2::lemma2_to64_rest();
        vstd::arithmetic::power2::lemma_pow2_adds(64, 63);
    }
}

} // verus!
