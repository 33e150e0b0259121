//! The price curve: conversions between liquidity, square-root price and
//! token amounts, and the next price after a given amount.
//!
//! The curve follows `x * y = k` expressed through liquidity `L` and the
//! square-root price `√P` in Q64.64:
//!
//! * `Δa = L * (√P_upper − √P_lower) / (√P_upper * √P_lower)`
//! * `Δb = L * (√P_upper − √P_lower) / 2^128`
//!
//! Wide intermediates keep every multiply exact; a result that exceeds the
//! 64-bit amount range is a hard failure, never a truncation.

use vstd::prelude::*;
use vstd::arithmetic::div_mod::{lemma_div_by_multiple, lemma_mod_multiples_basic};
use crate::math::{
    ceil_div, mul_div_spec, mul_div_u256, shl_div_256, round_quotient, lemma_ceil_div_le,
    lemma_ceil_div_bounds,
};
use crate::u256::{U256, p64, p128, p256, lemma_pow2_values};
use crate::{PoolError, Rounding};

verus! {

/// Amount of token A released or absorbed when the price moves across
/// `[lower, upper]` at liquidity `l`.
pub open spec fn delta_amount_a_spec(lower: nat, upper: nat, l: nat, rounding: Rounding) -> nat
    recommends
        0 < lower <= upper,
{
    mul_div_spec(l, (upper - lower) as nat, lower * upper, rounding)
}

/// Amount of token B released or absorbed when the price moves across
/// `[lower, upper]` at liquidity `l`.
pub open spec fn delta_amount_b_spec(lower: nat, upper: nat, l: nat, rounding: Rounding) -> nat
    recommends
        lower <= upper,
{
    mul_div_spec(l, (upper - lower) as nat, p128(), rounding)
}

/// The delta amounts restricted to the 64-bit token range.
pub open spec fn spec_delta_amount_a_u64(lower: nat, upper: nat, l: nat, rounding: Rounding) ->
    Result<nat, PoolError> {
    let v = delta_amount_a_spec(lower, upper, l, rounding);
    if v > u64::MAX {
        Err(PoolError::MathOverflow)
    } else {
        Ok(v)
    }
}

pub open spec fn spec_delta_amount_b_u64(lower: nat, upper: nat, l: nat, rounding: Rounding) ->
    Result<nat, PoolError> {
    let v = delta_amount_b_spec(lower, upper, l, rounding);
    if v > u64::MAX {
        Err(PoolError::MathOverflow)
    } else {
        Ok(v)
    }
}

/// Next square-root price after the given amount, for all four
/// direction/mode combinations.
///
/// * Exact in, A for B (price falls): `√P' = ceil(L*√P / (L + Δa*√P))`.
/// * Exact in, B for A (price rises): `√P' = √P + floor(Δb*2^128 / L)`.
/// * Exact out, A for B (`amount` is token B out): `√P' = √P − ceil(Δb*2^128 / L)`.
/// * Exact out, B for A (`amount` is token A out): `√P' = ceil(L*√P / (L − Δa*√P))`.
///
/// Rounding always favours the pool: exact-in moves the price as little as
/// possible, exact-out as much as necessary.
pub open spec fn spec_next_sqrt_price(
    p: nat,
    l: nat,
    amount: nat,
    a_for_b: bool,
    is_exact_out: bool,
) -> Result<nat, PoolError>
    recommends
        p > 0,
        l > 0,
{
    if !is_exact_out {
        if a_for_b {
            Ok(ceil_div(l * p, l + amount * p))
        } else {
            let v = p + (amount * p128()) / l;
            if v > u128::MAX {
                Err(PoolError::TypeCastFailed)
            } else {
                Ok(v)
            }
        }
    } else {
        if a_for_b {
            let q = ceil_div(amount * p128(), l);
            if q > p {
                Err(PoolError::MathOverflow)
            } else {
                Ok((p - q) as nat)
            }
        } else {
            if amount * p >= l {
                Err(PoolError::MathOverflow)
            } else {
                let v = ceil_div(l * p, (l - amount * p) as nat);
                if v > u128::MAX {
                    Err(PoolError::TypeCastFailed)
                } else {
                    Ok(v)
                }
            }
        }
    }
}

/// No value is created by a round trip: swapping `a` of token A for token
/// B and then swapping the whole proceeds back never yields more than `a`.
///
/// `p1` is the price after the first leg, `out_b` its output, `p2` the
/// price after the reverse leg, and `out_a` the final output.  The price
/// also never recovers beyond its starting point.  The pool's rounding
/// choices (price up, outputs down) are exactly what makes this hold.
pub proof fn lemma_round_trip_no_gain(p: nat, l: nat, a: nat)
    requires
        p >= 1,
        l >= 1,
    ensures
        ({
            let p1 = ceil_div(l * p, l + a * p);
            let out_b = delta_amount_b_spec(p1, p, l, Rounding::Down);
            let p2 = p1 + (out_b * p128()) / l;
            let out_a = delta_amount_a_spec(p1, p2, l, Rounding::Down);
            &&& 1 <= p1 <= p
            &&& p1 <= p2 <= p
            &&& out_a <= a
        }),
{
    let d = l + a * p;
    let p1 = ceil_div(l * p, d);
    // the first leg cannot raise the price, and keeps it positive
    assert(l * p >= 1 && l * p <= p * d && d >= 1) by (nonlinear_arith)
        requires
            p >= 1,
            l >= 1,
            d == l + a * p,
    ;
    lemma_ceil_div_le(l * p, d, p);
    lemma_ceil_div_bounds(l * p, d);
    assert(p1 >= 1) by (nonlinear_arith)
        requires
            p1 * d >= l * p,
            l * p >= 1,
            d >= 1,
    ;

    // the B output is covered by the price move
    let out_b = delta_amount_b_spec(p1, p, l, Rounding::Down);
    assert(out_b == (l * ((p - p1) as nat)) / p128());
    crate::math::lemma_floor_div_bounds(l * ((p - p1) as nat), p128());
    assert(out_b * p128() <= l * (p - p1));

    // the reverse leg cannot pass the starting price
    let back = (out_b * p128()) / l;
    let p2 = p1 + back;
    crate::math::lemma_floor_div_bounds(out_b * p128(), l);
    assert(back * l <= out_b * p128());
    assert(back <= p - p1) by (nonlinear_arith)
        requires
            back * l <= out_b * p128(),
            out_b * p128() <= l * ((p - p1) as nat),
            l >= 1,
            p1 <= p,
    ;
    assert(p1 <= p2 <= p);

    // the final A output never exceeds what went in
    let out_a = delta_amount_a_spec(p1, p2, l, Rounding::Down);
    assert(out_a == (l * ((p2 - p1) as nat)) / (p1 * p2));
    assert(p1 * p2 >= 1) by (nonlinear_arith)
        requires
            p1 >= 1,
            p2 >= p1,
    ;
    crate::math::lemma_floor_div_bounds(l * ((p2 - p1) as nat), p1 * p2);
    assert(out_a * (p1 * p2) <= l * (p2 - p1));

    // chain of inequalities, scaled by the positive factor p1 * p2 * d
    assert(out_a * (p1 * p2) * d <= (l * p2 - l * p1) * d) by (nonlinear_arith)
        requires
            out_a * (p1 * p2) <= l * ((p2 - p1) as nat),
            p2 >= p1,
            d >= 1,
    ;
    assert((l * p2 - l * p1) * d == l * p2 * d - l * (p1 * d)) by (nonlinear_arith);
    assert(l * (p1 * d) >= l * (l * p)) by (nonlinear_arith)
        requires
            p1 * d >= l * p,
            l >= 1,
    ;
    assert(l * p2 * d == l * l * p2 + l * a * p * p2) by (nonlinear_arith)
        requires
            d == l + a * p,
    ;
    assert(l * l * p2 <= l * l * p && l * (l * p) == l * l * p) by (nonlinear_arith)
        requires
            p2 <= p,
    ;
    assert(out_a * (p1 * p2) * d <= l * a * p * p2);
    assert(l * a * p * p2 <= a * (p1 * p2) * d) by (nonlinear_arith)
        requires
            l * p <= p1 * d,
            a >= 0,
            p2 >= 1,
    ;
    assert(out_a <= a) by (nonlinear_arith)
        requires
            out_a * (p1 * p2) * d <= a * (p1 * p2) * d,
            p1 * p2 >= 1,
            d >= 1,
    ;
}

/// `Δa` for the given range and liquidity, at full width.
pub fn get_delta_amount_a_unsigned_unchecked(
    lower_sqrt_price: u128,
    upper_sqrt_price: u128,
    liquidity: u128,
    round: Rounding,
) -> (res: Result<U256, PoolError>)
    requires
        0 < lower_sqrt_price <= upper_sqrt_price,
    ensures
        match res {
            Ok(v) => v.v() == delta_amount_a_spec(
                lower_sqrt_price as nat,
                upper_sqrt_price as nat,
                liquidity as nat,
                round,
            ),
            Err(_) => false,
        },
{
    let denominator = U256::mul_u128(lower_sqrt_price, upper_sqrt_price);
    proof {
        assert(denominator.v() > 0) by (nonlinear_arith)
            requires
                denominator.v() == lower_sqrt_price as nat * upper_sqrt_price as nat,
                lower_sqrt_price >= 1,
                upper_sqrt_price >= 1,
        ;
    }
    match mul_div_u256(liquidity, upper_sqrt_price - lower_sqrt_price, denominator, round) {
        Some(v) => Ok(v),
        None => {
            proof {
                assert(false);
            }
            Err(PoolError::MathOverflow)
        },
    }
}

/// `Δa` for the given range and liquidity, as a token amount.
pub fn get_delta_amount_a_unsigned(
    lower_sqrt_price: u128,
    upper_sqrt_price: u128,
    liquidity: u128,
    round: Rounding,
) -> (res: Result<u64, PoolError>)
    requires
        0 < lower_sqrt_price <= upper_sqrt_price,
    ensures
        match res {
            Ok(v) => spec_delta_amount_a_u64(
                lower_sqrt_price as nat,
                upper_sqrt_price as nat,
                liquidity as nat,
                round,
            ) == Result::<nat, PoolError>::Ok(v as nat),
            Err(e) => spec_delta_amount_a_u64(
                lower_sqrt_price as nat,
                upper_sqrt_price as nat,
                liquidity as nat,
                round,
            ) == Result::<nat, PoolError>::Err(e),
        },
{
    let result = get_delta_amount_a_unsigned_unchecked(
        lower_sqrt_price,
        upper_sqrt_price,
        liquidity,
        round,
    )?;
    match result.to_u64() {
        Some(v) => Ok(v),
        None => Err(PoolError::MathOverflow),
    }
}

/// `Δb` for the given range and liquidity, at full width.
pub fn get_delta_amount_b_unsigned_unchecked(
    lower_sqrt_price: u128,
    upper_sqrt_price: u128,
    liquidity: u128,
    round: Rounding,
) -> (res: Result<U256, PoolError>)
    requires
        lower_sqrt_price <= upper_sqrt_price,
    ensures
        match res {
            Ok(v) => v.v() == delta_amount_b_spec(
                lower_sqrt_price as nat,
                upper_sqrt_price as nat,
                liquidity as nat,
                round,
            ),
            Err(_) => false,
        },
{
    let prod = U256::mul_u128(liquidity, upper_sqrt_price - lower_sqrt_price);
    let denominator = U256::pow2_exec(128);
    proof {
        lemma_pow2_values();
        prod.lemma_v_bound();
    }
    let (q, r) = prod.div_rem(denominator);
    match round {
        Rounding::Up => {
            if r.is_zero() {
                Ok(q)
            } else {
                proof {
                    assert(q.v() + 1 < p256()) by (nonlinear_arith)
                        requires
                            q.v() * p128() + r.v() < p256(),
                            r.v() >= 1,
                    ;
                }
                match q.checked_add(U256::from_u64(1)) {
                    Some(v) => Ok(v),
                    None => {
                        proof {
                            assert(false);
                        }
                        Err(PoolError::MathOverflow)
                    },
                }
            }
        },
        Rounding::Down => Ok(q),
    }
}

/// `Δb` for the given range and liquidity, as a token amount.
pub fn get_delta_amount_b_unsigned(
    lower_sqrt_price: u128,
    upper_sqrt_price: u128,
    liquidity: u128,
    round: Rounding,
) -> (res: Result<u64, PoolError>)
    requires
        lower_sqrt_price <= upper_sqrt_price,
    ensures
        match res {
            Ok(v) => spec_delta_amount_b_u64(
                lower_sqrt_price as nat,
                upper_sqrt_price as nat,
                liquidity as nat,
                round,
            ) == Result::<nat, PoolError>::Ok(v as nat),
            Err(e) => spec_delta_amount_b_u64(
                lower_sqrt_price as nat,
                upper_sqrt_price as nat,
                liquidity as nat,
                round,
            ) == Result::<nat, PoolError>::Err(e),
        },
{
    let result = get_delta_amount_b_unsigned_unchecked(
        lower_sqrt_price,
        upper_sqrt_price,
        liquidity,
        round,
    )?;
    match result.to_u64() {
        Some(v) => Ok(v),
        None => Err(PoolError::MathOverflow),
    }
}

/// Token amounts needed to open a pool at `sqrt_price` over the full range.
pub fn get_initialize_amounts(
    sqrt_min_price: u128,
    sqrt_max_price: u128,
    sqrt_price: u128,
    liquidity: u128,
) -> (res: Result<(u64, u64), PoolError>)
    requires
        0 < sqrt_min_price <= sqrt_price <= sqrt_max_price,
    ensures
        match res {
            Ok(v) => spec_delta_amount_a_u64(
                sqrt_price as nat,
                sqrt_max_price as nat,
                liquidity as nat,
                Rounding::Up,
            ) == Result::<nat, PoolError>::Ok(v.0 as nat) && spec_delta_amount_b_u64(
                sqrt_min_price as nat,
                sqrt_price as nat,
                liquidity as nat,
                Rounding::Up,
            ) == Result::<nat, PoolError>::Ok(v.1 as nat),
            Err(e) => spec_delta_amount_a_u64(
                sqrt_price as nat,
                sqrt_max_price as nat,
                liquidity as nat,
                Rounding::Up,
            ) == Result::<nat, PoolError>::Err(e) || spec_delta_amount_b_u64(
                sqrt_min_price as nat,
                sqrt_price as nat,
                liquidity as nat,
                Rounding::Up,
            ) == Result::<nat, PoolError>::Err(e),
        },
{
    let amount_a = get_delta_amount_a_unsigned(sqrt_price, sqrt_max_price, liquidity, Rounding::Up)?;
    let amount_b = get_delta_amount_b_unsigned(sqrt_min_price, sqrt_price, liquidity, Rounding::Up)?;
    Ok((amount_a, amount_b))
}

/// Next price when `amount` of token A enters the pool: the price falls,
/// rounded up so the move (and thus the derived output) favours the pool.
pub fn get_next_sqrt_price_from_amount_a_rounding_up(sqrt_price: u128, liquidity: u128, amount: u64)
    -> (res: Result<u128, PoolError>)
    requires
        sqrt_price > 0,
        liquidity > 0,
    ensures
        match res {
            Ok(v) => v == ceil_div(
                liquidity as nat * sqrt_price as nat,
                liquidity as nat + amount as nat * sqrt_price as nat,
            ) && v <= sqrt_price,
            Err(_) => false,
        },
{
    let p = sqrt_price;
    let l = liquidity;
    if amount == 0 {
        proof {
            lemma_div_by_multiple(p as int, l as int);
            lemma_mod_multiples_basic(p as int, l as int);
            assert(l as nat * p as nat == p as nat * l as nat) by (nonlinear_arith);
        }
        return Ok(p);
    }
    let product = U256::mul_u128(amount as u128, p);
    let denominator = match U256::from_u128(l).checked_add(product) {
        Some(d) => d,
        None => {
            proof {
                assert((l as nat) + (amount as nat) * (p as nat) < p256()) by (nonlinear_arith)
                    requires
                        (amount as nat) < p64(),
                        (p as nat) < p128(),
                        (l as nat) < p128(),
                        p256() == p128() * p128(),
                        p64() <= p128(),
                ;
                assert(false);
            }
            return Err(PoolError::MathOverflow);
        },
    };
    proof {
        assert(denominator.v() >= 1);
    }
    let result = match mul_div_u256(l, p, denominator, Rounding::Up) {
        Some(r) => r,
        None => {
            proof {
                assert(false);
            }
            return Err(PoolError::MathOverflow);
        },
    };
    proof {
        // ceil(l*p / (l + a*p)) <= p because l*p <= p*(l + a*p)
        assert(liquidity as nat * sqrt_price as nat <= sqrt_price as nat * denominator.v())
            by (nonlinear_arith)
            requires
                denominator.v() >= liquidity as nat,
        ;
        lemma_ceil_div_le(
            liquidity as nat * sqrt_price as nat,
            denominator.v(),
            sqrt_price as nat,
        );
    }
    match result.to_u128() {
        Some(v) => Ok(v),
        None => {
            proof {
                assert(false);
            }
            Err(PoolError::TypeCastFailed)
        },
    }
}

/// Next price when `amount` of token B enters the pool: the price rises,
/// rounded down for the symmetric reason.
pub fn get_next_sqrt_price_from_amount_b_rounding_down(
    sqrt_price: u128,
    liquidity: u128,
    amount: u64,
) -> (res: Result<u128, PoolError>)
    requires
        liquidity > 0,
    ensures
        match res {
            Ok(v) => v == sqrt_price as nat + (amount as nat * p128()) / liquidity as nat && v
                >= sqrt_price,
            Err(e) => e == PoolError::TypeCastFailed && sqrt_price as nat + (amount as nat
                * p128()) / liquidity as nat > u128::MAX,
        },
{
    let quotient = match shl_div_256(amount as u128, liquidity, 128) {
        Some(q) => q,
        None => {
            proof {
                lemma_pow2_values();
                assert(amount as nat * p128() < p256()) by (nonlinear_arith)
                    requires
                        (amount as nat) < p64(),
                        p256() == p128() * p128(),
                        p64() <= p128(),
                ;
                assert(false);
            }
            return Err(PoolError::MathOverflow);
        },
    };
    proof {
        lemma_pow2_values();
    }
    let result = match U256::from_u128(sqrt_price).checked_add(quotient) {
        Some(r) => r,
        None => {
            proof {
                // the quotient is at most Δb * 2^128, far below 2^256
                assert(quotient.v() <= quotient.v() * liquidity as nat) by (nonlinear_arith)
                    requires
                        liquidity >= 1,
                ;
                crate::math::lemma_floor_div_bounds(
                    amount as nat * p128(),
                    liquidity as nat,
                );
                assert((amount as nat) * p128() + p128() < p256()) by (nonlinear_arith)
                    requires
                        (amount as nat) < p64(),
                ;
                assert(false);
            }
            return Err(PoolError::MathOverflow);
        },
    };
    match result.to_u128() {
        Some(v) => Ok(v),
        None => Err(PoolError::TypeCastFailed),
    }
}

/// Next square-root price given an input amount; dispatches on direction.
pub fn get_next_sqrt_price_from_input(
    sqrt_price: u128,
    liquidity: u128,
    amount_in: u64,
    a_for_b: bool,
) -> (res: Result<u128, PoolError>)
    requires
        sqrt_price > 0,
        liquidity > 0,
    ensures
        match res {
            Ok(v) => spec_next_sqrt_price(
                sqrt_price as nat,
                liquidity as nat,
                amount_in as nat,
                a_for_b,
                false,
            ) == Result::<nat, PoolError>::Ok(v as nat) && (a_for_b ==> v <= sqrt_price) && (
            !a_for_b ==> v >= sqrt_price),
            Err(e) => spec_next_sqrt_price(
                sqrt_price as nat,
                liquidity as nat,
                amount_in as nat,
                a_for_b,
                false,
            ) == Result::<nat, PoolError>::Err(e),
        },
{
    if a_for_b {
        get_next_sqrt_price_from_amount_a_rounding_up(sqrt_price, liquidity, amount_in)
    } else {
        get_next_sqrt_price_from_amount_b_rounding_down(sqrt_price, liquidity, amount_in)
    }
}

/// Next square-root price for all four direction/mode combinations; for
/// exact-out the amount is the fixed output and the rounding is inverted so
/// the pool never pays out more than computed.
pub fn get_next_sqrt_price(
    sqrt_price: u128,
    liquidity: u128,
    amount: u64,
    a_for_b: bool,
    is_exact_out: bool,
) -> (res: Result<u128, PoolError>)
    requires
        sqrt_price > 0,
        liquidity > 0,
    ensures
        match res {
            Ok(v) => spec_next_sqrt_price(
                sqrt_price as nat,
                liquidity as nat,
                amount as nat,
                a_for_b,
                is_exact_out,
            ) == Result::<nat, PoolError>::Ok(v as nat) && (a_for_b ==> v <= sqrt_price) && (
            !a_for_b ==> v >= sqrt_price),
            Err(e) => spec_next_sqrt_price(
                sqrt_price as nat,
                liquidity as nat,
                amount as nat,
                a_for_b,
                is_exact_out,
            ) == Result::<nat, PoolError>::Err(e),
        },
{
    if !is_exact_out {
        get_next_sqrt_price_from_input(sqrt_price, liquidity, amount, a_for_b)
    } else if a_for_b {
        // fixed output of token B: the price must fall at least far enough,
        // so the price move `ceil(Δb * 2^128 / L)` is rounded up
        let prod = U256 { lo: 0, hi: amount as u128 };
        let d = U256::from_u128(liquidity);
        proof {
            lemma_pow2_values();
            prod.lemma_v_bound();
            assert(prod.v() == amount as nat * p128());
        }
        let (q, r) = prod.div_rem(d);
        let move_down = round_quotient(q, r, d, Rounding::Up, Ghost(prod.v()));
        let p_u = U256::from_u128(sqrt_price);
        if p_u.lt(&move_down) {
            Err(PoolError::MathOverflow)
        } else {
            let m = match move_down.to_u128() {
                Some(m) => m,
                None => {
                    proof {
                        assert(move_down.v() <= p_u.v());
                        assert(p_u.v() == sqrt_price as nat);
                        assert(false);
                    }
                    return Err(PoolError::MathOverflow);
                },
            };
            Ok(sqrt_price - m)
        }
    } else {
        // fixed output of token A: the price rises to
        // `ceil(L * √P / (L − Δa * √P))`, failing when the pool cannot
        // release that much
        let ap = U256::mul_u128(amount as u128, sqrt_price);
        let l_u = U256::from_u128(liquidity);
        if !ap.lt(&l_u) {
            return Err(PoolError::MathOverflow);
        }
        let ap_small = match ap.to_u128() {
            Some(v) => v,
            None => {
                proof {
                    assert(false);
                }
                return Err(PoolError::MathOverflow);
            },
        };
        let denominator = liquidity - ap_small;
        match crate::math::mul_div(liquidity, sqrt_price, denominator, Rounding::Up) {
            Some(v) => {
                proof {
                    // the price cannot fall: L*√P >= √P * (L − Δa*√P)
                    assert(liquidity as nat * sqrt_price as nat >= sqrt_price as nat
                        * denominator as nat) by (nonlinear_arith)
                        requires
                            denominator as nat <= liquidity as nat,
                    ;
                    lemma_ceil_div_bounds(
                        liquidity as nat * sqrt_price as nat,
                        denominator as nat,
                    );
                    assert(ceil_div(
                        liquidity as nat * sqrt_price as nat,
                        denominator as nat,
                    ) >= sqrt_price as nat) by (nonlinear_arith)
                        requires
                            ceil_div(liquidity as nat * sqrt_price as nat, denominator as nat)
                                * denominator as nat >= liquidity as nat * sqrt_price as nat,
                            liquidity as nat * sqrt_price as nat >= sqrt_price as nat
                                * denominator as nat,
                            denominator as nat > 0,
                    ;
                }
                Ok(v)
            },
            None => Err(PoolError::TypeCastFailed),
        }
    }
}

} // verus!
