//! Fixed-point multiply-divide and multiply-shift primitives.
//!
//! Each primitive computes through a 256-bit intermediate so the multiply
//! itself never overflows; it reports failure only when the mathematical
//! result cannot fit the target width.  Rounding is always explicit.

use vstd::prelude::*;
use vstd::arithmetic::power2::{pow2, lemma_pow2_pos};
use vstd::arithmetic::div_mod::{
    lemma_div_by_multiple, lemma_div_is_ordered, lemma_fundamental_div_mod,
};
use crate::u256::{U256, p128, p256};
use crate::Rounding;

verus! {

/// `a / d` rounded up; `d` must be positive.
pub open spec fn ceil_div(a: nat, d: nat) -> nat
    recommends
        d > 0,
{
    if a % d == 0 {
        a / d
    } else {
        a / d + 1
    }
}

/// `(x * y) / d` under the given rounding mode; `d` must be positive.
pub open spec fn mul_div_spec(x: nat, y: nat, d: nat, rounding: Rounding) -> nat
    recommends
        d > 0,
{
    match rounding {
        Rounding::Up => ceil_div(x * y, d),
        Rounding::Down => (x * y) / d,
    }
}

/// The rounded-up quotient brackets the exact quotient from above:
/// `a <= ceil_div(a, d) * d < a + d`.
pub proof fn lemma_ceil_div_bounds(a: nat, d: nat)
    requires
        d > 0,
    ensures
        a <= ceil_div(a, d) * d,
        ceil_div(a, d) * d < a + d,
{
    lemma_fundamental_div_mod(a as int, d as int);
    assert((a / d) * d == d * (a / d)) by (nonlinear_arith);
    if a % d == 0 {
        assert(ceil_div(a, d) * d == (a / d) * d);
    } else {
        assert((a / d + 1) * d == (a / d) * d + d) by (nonlinear_arith);
    }
}

/// The rounded-down quotient brackets the exact quotient from below:
/// `a - d < (a / d) * d <= a`.
pub proof fn lemma_floor_div_bounds(a: nat, d: nat)
    requires
        d > 0,
    ensures
        (a / d) * d <= a,
        a < (a / d) * d + d,
{
    lemma_fundamental_div_mod(a as int, d as int);
    assert((a / d) * d == d * (a / d)) by (nonlinear_arith);
}

/// If `a <= c * d` then the rounded-up quotient of `a` by `d` is at most `c`.
pub proof fn lemma_ceil_div_le(a: nat, d: nat, c: nat)
    requires
        d > 0,
        a <= c * d,
    ensures
        ceil_div(a, d) <= c,
{
    lemma_ceil_div_bounds(a, d);
    assert(ceil_div(a, d) <= c) by (nonlinear_arith)
        requires
            ceil_div(a, d) * d < a + d,
            a <= c * d,
            d > 0,
    ;
}

/// If `a < (c + 1) * d` then the rounded-down quotient of `a` by `d` is at
/// most `c`.
pub proof fn lemma_floor_div_le(a: nat, d: nat, c: nat)
    requires
        d > 0,
        a < (c + 1) * d,
    ensures
        a / d <= c,
{
    lemma_floor_div_bounds(a, d);
    assert(a / d <= c) by (nonlinear_arith)
        requires
            (a / d) * d <= a,
            a < (c + 1) * d,
            d > 0,
    ;
}

/// If `a >= c * d` then the rounded-down quotient of `a` by `d` is at
/// least `c`.
pub proof fn lemma_floor_div_ge(a: nat, d: nat, c: nat)
    requires
        d > 0,
        a >= c * d,
    ensures
        a / d >= c,
{
    lemma_floor_div_bounds(a, d);
    assert(a / d >= c) by (nonlinear_arith)
        requires
            a < (a / d) * d + d,
            a >= c * d,
            d > 0,
    ;
}

/// Round a 256-bit quotient `q` with remainder `r` upward if requested,
/// proving the increment stays in range.
pub(crate) fn round_quotient(q: U256, r: U256, d: U256, rounding: Rounding, Ghost(prod): Ghost<nat>) -> (res:
    U256)
    requires
        d.v() > 0,
        q.v() * d.v() + r.v() == prod,
        q.v() == prod / d.v(),
        r.v() == prod % d.v(),
        prod < p256(),
    ensures
        res.v() == match rounding {
            Rounding::Up => ceil_div(prod, d.v()),
            Rounding::Down => prod / d.v(),
        },
{
    match rounding {
        Rounding::Up => {
            if r.is_zero() {
                q
            } else {
                proof {
                    assert(q.v() + 1 < p256()) by (nonlinear_arith)
                        requires
                            q.v() * d.v() + r.v() < p256(),
                            d.v() >= 1,
                            r.v() >= 1,
                    ;
                }
                let one = U256::from_u64(1);
                match q.checked_add(one) {
                    Some(res) => res,
                    None => {
                        proof {
                            assert(false);
                        }
                        q
                    },
                }
            }
        },
        Rounding::Down => q,
    }
}

/// `(x * y) / denominator` with explicit rounding through a 256-bit
/// intermediate.  Fails exactly when the denominator is zero or the result
/// does not fit in 128 bits.
pub fn mul_div(x: u128, y: u128, denominator: u128, rounding: Rounding) -> (res: Option<u128>)
    ensures
        denominator == 0 ==> res is None,
        denominator > 0 ==> match res {
            Some(v) => v == mul_div_spec(x as nat, y as nat, denominator as nat, rounding),
            None => mul_div_spec(x as nat, y as nat, denominator as nat, rounding) > u128::MAX,
        },
{
    if denominator == 0 {
        return None;
    }
    let prod = U256::mul_u128(x, y);
    let d = U256::from_u128(denominator);
    let (q, r) = prod.div_rem(d);
    proof {
        prod.lemma_v_bound();
    }
    let rounded = round_quotient(q, r, d, rounding, Ghost(prod.v()));
    rounded.to_u128()
}

/// `(x * y) >> offset` with explicit rounding.  Fails exactly when the
/// result does not fit in 128 bits.
pub fn mul_shr(x: u128, y: u128, offset: u8, rounding: Rounding) -> (res: Option<u128>)
    ensures
        match res {
            Some(v) => v == mul_div_spec(x as nat, y as nat, pow2(offset as nat), rounding),
            None => mul_div_spec(x as nat, y as nat, pow2(offset as nat), rounding) > u128::MAX,
        },
{
    let prod = U256::mul_u128(x, y);
    let d = U256::pow2_exec(offset as usize);
    proof {
        lemma_pow2_pos(offset as nat);
        prod.lemma_v_bound();
    }
    let (q, r) = prod.div_rem(d);
    let rounded = round_quotient(q, r, d, rounding, Ghost(prod.v()));
    rounded.to_u128()
}

/// `(x << offset) / y` with explicit rounding.  Fails exactly when `y` is
/// zero or the result does not fit in 128 bits.
pub fn shl_div(x: u128, y: u128, offset: u8, rounding: Rounding) -> (res: Option<u128>)
    ensures
        y == 0 ==> res is None,
        y > 0 ==> match res {
            Some(v) => v == mul_div_spec(x as nat, pow2(offset as nat), y as nat, rounding),
            None => mul_div_spec(x as nat, pow2(offset as nat), y as nat, rounding) > u128::MAX,
        },
{
    if y == 0 {
        return None;
    }
    let p = U256::pow2_exec(offset as usize);
    match p.checked_mul_u128(x) {
        Some(prod) => {
            proof {
                prod.lemma_v_bound();
                assert(prod.v() == x as nat * pow2(offset as nat)) by (nonlinear_arith)
                    requires
                        prod.v() == pow2(offset as nat) * x as nat,
                ;
            }
            let d = U256::from_u128(y);
            let (q, r) = prod.div_rem(d);
            let rounded = round_quotient(q, r, d, rounding, Ghost(prod.v()));
            rounded.to_u128()
        },
        None => {
            proof {
                // the shifted value is at least 2^256, so even the floor of
                // the quotient exceeds 128 bits
                let a = pow2(offset as nat) * x as nat;
                assert(p128() * y as nat <= a) by (nonlinear_arith)
                    requires
                        a >= p256(),
                        (y as nat) < p128(),
                        p256() == p128() * p128(),
                ;
                lemma_div_by_multiple(p128() as int, y as int);
                lemma_div_is_ordered((p128() * y as nat) as int, a as int, y as int);
                assert(a / (y as nat) >= p128());
                assert(mul_div_spec(x as nat, pow2(offset as nat), y as nat, rounding) >= a / (
                y as nat)) by (nonlinear_arith)
                    requires
                        a == x as nat * pow2(offset as nat),
                        mul_div_spec(x as nat, pow2(offset as nat), y as nat, rounding) >= (
                        x as nat * pow2(offset as nat)) / y as nat,
                ;
            }
            None
        },
    }
}

/// `(x << offset) / y` rounded down, kept at full 256-bit width.  Fails
/// exactly when `y` is zero or the shifted value overflows 256 bits.
pub fn shl_div_256(x: u128, y: u128, offset: u8) -> (res: Option<U256>)
    ensures
        match res {
            Some(v) => y > 0 && v.v() == (x as nat * pow2(offset as nat)) / y as nat,
            None => y == 0 || x as nat * pow2(offset as nat) >= p256(),
        },
{
    if y == 0 {
        return None;
    }
    let p = U256::pow2_exec(offset as usize);
    match p.checked_mul_u128(x) {
        Some(prod) => {
            proof {
                assert(prod.v() == x as nat * pow2(offset as nat)) by (nonlinear_arith)
                    requires
                        prod.v() == pow2(offset as nat) * x as nat,
                ;
            }
            let d = U256::from_u128(y);
            let (q, _r) = prod.div_rem(d);
            Some(q)
        },
        None => {
            proof {
                assert(x as nat * pow2(offset as nat) >= p256()) by (nonlinear_arith)
                    requires
                        pow2(offset as nat) * x as nat >= p256(),
                ;
            }
            None
        },
    }
}

/// `(x * y) / denominator` where the denominator itself is 256 bits wide;
/// the full quotient is returned.  Fails exactly when the denominator is
/// zero.
pub fn mul_div_u256(x: u128, y: u128, denominator: U256, rounding: Rounding) -> (res: Option<
    U256>)
    ensures
        match res {
            Some(v) => denominator.v() > 0 && v.v() == mul_div_spec(
                x as nat,
                y as nat,
                denominator.v(),
                rounding,
            ),
            None => denominator.v() == 0,
        },
{
    if denominator.is_zero() {
        return None;
    }
    let prod = U256::mul_u128(x, y);
    proof {
        prod.lemma_v_bound();
    }
    let (q, r) = prod.div_rem(denominator);
    Some(round_quotient(q, r, denominator, rounding, Ghost(prod.v())))
}

} // verus!
