//! The fee model: a static trade fee plus an optional volatility-sensitive
//! dynamic fee, and the fixed-order split of a fee amount into LP, protocol,
//! partner and referral shares.
//!
//! Split order is a policy decision and is preserved exactly: total fee →
//! protocol share → referral share carved from the protocol share → partner
//! share out of what remains after the protocol → LP share as the remainder.

use vstd::prelude::*;
use vstd::arithmetic::div_mod::{
    lemma_div_by_multiple, lemma_div_is_ordered, lemma_div_denominator,
};
use vstd::arithmetic::mul::lemma_mul_inequality;
use crate::constants::{BASIS_POINT_MAX, FEE_DENOMINATOR, MAX_FEE_NUMERATOR, ONE_Q64};
use crate::math::{
    ceil_div, mul_div, shl_div, lemma_ceil_div_le, lemma_floor_div_bounds, lemma_floor_div_ge,
};
use crate::safe_math::{safe_add_u128, safe_mul_u128, safe_sub_u128};
use crate::u256::p64;
use crate::{PoolError, Rounding, TradeDirection};

verus! {

/// Which side of a swap carries the fee, and whether a referral is present.
#[derive(Clone, Copy, Debug, PartialEq, Eq, Structural)]
pub struct FeeMode {
    pub fees_on_input: bool,
    pub fees_on_token_a: bool,
    pub has_referral: bool,
}

/// How a gross amount decomposes once the fee is taken.
#[derive(Clone, Copy, Debug, PartialEq, Eq, Structural)]
pub struct FeeOnAmountResult {
    /// Exact-in: the amount that continues to the curve.  Exact-out: the
    /// gross amount that must be charged.
    pub amount: u64,
    pub lp_fee: u64,
    pub protocol_fee: u64,
    pub partner_fee: u64,
    pub referral_fee: u64,
}

/// Volatility-tracking state for the dynamic fee: a reference price, a
/// decayed reference accumulator, and the accumulator itself.
#[derive(Clone, Copy, Debug, PartialEq, Eq, Structural)]
pub struct DynamicFeeStruct {
    /// Zero disables the dynamic fee entirely.
    pub initialized: u8,
    pub max_volatility_accumulator: u32,
    pub variable_fee_control: u32,
    pub bin_step: u16,
    pub filter_period: u16,
    pub decay_period: u16,
    pub reduction_factor: u16,
    pub last_update_timestamp: u64,
    pub bin_step_u128: u128,
    pub sqrt_price_reference: u128,
    pub volatility_accumulator: u128,
    pub volatility_reference: u128,
}

/// Static trade fee parameters plus the dynamic fee state.
#[derive(Clone, Copy, Debug, PartialEq, Eq, Structural)]
pub struct PoolFeesStruct {
    /// Static fee as a numerator over `FEE_DENOMINATOR`.
    pub trade_fee_numerator: u64,
    /// Protocol share of the total fee, in percent.
    pub protocol_fee_percent: u8,
    /// Partner share of what remains after the protocol share, in percent.
    pub partner_fee_percent: u8,
    /// Referral share carved from the protocol share, in percent.
    pub referral_fee_percent: u8,
    pub dynamic_fee: DynamicFeeStruct,
}

impl DynamicFeeStruct {
    pub open spec fn spec_is_enabled(self) -> bool {
        self.initialized != 0
    }

    pub fn is_dynamic_fee_enable(&self) -> (r: bool)
        ensures
            r == self.spec_is_enabled(),
    {
        self.initialized != 0
    }

    /// The dynamic fee numerator:
    /// `ceil((volatility_accumulator * bin_step)^2 * variable_fee_control / 1e11)`.
    pub open spec fn spec_variable_fee(self) -> Result<nat, PoolError> {
        if !self.spec_is_enabled() {
            Ok(0)
        } else {
            let vb = self.volatility_accumulator * self.bin_step;
            if vb > u128::MAX {
                Err(PoolError::MathOverflow)
            } else {
                let sq = vb * vb;
                if sq > u128::MAX {
                    Err(PoolError::MathOverflow)
                } else {
                    let vfee = sq * self.variable_fee_control;
                    if vfee > u128::MAX {
                        Err(PoolError::MathOverflow)
                    } else if vfee + 99_999_999_999 > u128::MAX {
                        Err(PoolError::MathOverflow)
                    } else {
                        Ok((vfee + 99_999_999_999) as nat / 100_000_000_000)
                    }
                }
            }
        }
    }

    /// Dynamic fee numerator scaled into `FEE_DENOMINATOR` units.
    pub fn get_variable_fee(&self) -> (res: Result<u128, PoolError>)
        ensures
            match res {
                Ok(v) => self.spec_variable_fee() == Result::<nat, PoolError>::Ok(v as nat),
                Err(e) => self.spec_variable_fee() == Result::<nat, PoolError>::Err(e),
            },
    {
        if !self.is_dynamic_fee_enable() {
            return Ok(0);
        }
        let vb = safe_mul_u128(self.volatility_accumulator, self.bin_step as u128)?;
        let sq = safe_mul_u128(vb, vb)?;
        let vfee = safe_mul_u128(sq, self.variable_fee_control as u128)?;
        let biased = safe_add_u128(vfee, 99_999_999_999)?;
        Ok(biased / 100_000_000_000)
    }

    /// How many discretization bins lie between two square-root prices:
    /// `2 * (ratio_q64 − 1.0) / bin_step` where `ratio_q64` is the price
    /// ratio in Q64.64.
    pub open spec fn spec_delta_bin_id(bin_step_u128: nat, a: nat, b: nat) -> Result<
        nat,
        PoolError,
    > {
        let upper = if a > b {
            a
        } else {
            b
        };
        let lower = if a > b {
            b
        } else {
            a
        };
        if lower == 0 {
            Err(PoolError::MathOverflow)
        } else {
            let ratio = (upper * p64()) / lower;
            if ratio > u128::MAX {
                Err(PoolError::MathOverflow)
            } else if ratio < ONE_Q64 {
                Err(PoolError::MathOverflow)
            } else if bin_step_u128 == 0 {
                Err(PoolError::MathOverflow)
            } else {
                let delta = ((ratio - ONE_Q64) as nat) / bin_step_u128;
                if delta * 2 > u128::MAX {
                    Err(PoolError::MathOverflow)
                } else {
                    Ok(delta * 2)
                }
            }
        }
    }

    pub fn get_delta_bin_id(bin_step_u128: u128, sqrt_price_a: u128, sqrt_price_b: u128) -> (res:
        Result<u128, PoolError>)
        ensures
            match res {
                Ok(v) => Self::spec_delta_bin_id(
                    bin_step_u128 as nat,
                    sqrt_price_a as nat,
                    sqrt_price_b as nat,
                ) == Result::<nat, PoolError>::Ok(v as nat),
                Err(e) => Self::spec_delta_bin_id(
                    bin_step_u128 as nat,
                    sqrt_price_a as nat,
                    sqrt_price_b as nat,
                ) == Result::<nat, PoolError>::Err(e),
            },
    {
        let (upper, lower) = if sqrt_price_a > sqrt_price_b {
            (sqrt_price_a, sqrt_price_b)
        } else {
            (sqrt_price_b, sqrt_price_a)
        };
        proof {
            vstd::arithmetic::power2::lemma2_to64();
        }
        let price_ratio = match shl_div(upper, lower, 64, Rounding::Down) {
            Some(r) => r,
            None => {
                return Err(PoolError::MathOverflow);
            },
        };
        let offset = safe_sub_u128(price_ratio, ONE_Q64)?;
        if bin_step_u128 == 0 {
            return Err(PoolError::MathOverflow);
        }
        let delta_bin_id = offset / bin_step_u128;
        safe_mul_u128(delta_bin_id, 2)
    }

    /// References updated before a swap: once the filter period has passed,
    /// the current price becomes the new reference and the accumulator is
    /// decayed (or zeroed after the decay period).
    pub open spec fn spec_update_references(
        self,
        sqrt_price_current: u128,
        current_timestamp: u64,
    ) -> Result<DynamicFeeStruct, PoolError> {
        if current_timestamp < self.last_update_timestamp {
            Err(PoolError::MathOverflow)
        } else {
            let elapsed = current_timestamp - self.last_update_timestamp;
            if elapsed >= self.filter_period {
                if elapsed < self.decay_period {
                    let scaled = self.volatility_accumulator * self.reduction_factor;
                    if scaled > u128::MAX {
                        Err(PoolError::MathOverflow)
                    } else {
                        Ok(
                            DynamicFeeStruct {
                                sqrt_price_reference: sqrt_price_current,
                                volatility_reference: (scaled / (BASIS_POINT_MAX as int)) as u128,
                                ..self
                            },
                        )
                    }
                } else {
                    Ok(
                        DynamicFeeStruct {
                            sqrt_price_reference: sqrt_price_current,
                            volatility_reference: 0,
                            ..self
                        },
                    )
                }
            } else {
                Ok(self)
            }
        }
    }

    pub fn update_references(&mut self, sqrt_price_current: u128, current_timestamp: u64) -> (res:
        Result<(), PoolError>)
        ensures
            match res {
                Ok(()) => old(self).spec_update_references(sqrt_price_current, current_timestamp)
                    == Result::<DynamicFeeStruct, PoolError>::Ok(*final(self)),
                Err(e) => old(self).spec_update_references(sqrt_price_current, current_timestamp)
                    == Result::<DynamicFeeStruct, PoolError>::Err(e) && *final(self) == *old(
                self),
            },
    {
        if current_timestamp < self.last_update_timestamp {
            return Err(PoolError::MathOverflow);
        }
        let elapsed = current_timestamp - self.last_update_timestamp;
        if elapsed >= self.filter_period as u64 {
            if elapsed < self.decay_period as u64 {
                let scaled = safe_mul_u128(
                    self.volatility_accumulator,
                    self.reduction_factor as u128,
                )?;
                self.volatility_reference = scaled / (BASIS_POINT_MAX as u128);
            } else {
                self.volatility_reference = 0;
            }
            self.sqrt_price_reference = sqrt_price_current;
        }
        Ok(())
    }

    /// The accumulator after a swap: the decayed reference plus the bins the
    /// price just crossed, capped at the configured maximum.
    pub open spec fn spec_update_volatility_accumulator(self, sqrt_price: u128) -> Result<
        DynamicFeeStruct,
        PoolError,
    > {
        match Self::spec_delta_bin_id(
            self.bin_step_u128 as nat,
            self.sqrt_price_reference as nat,
            sqrt_price as nat,
        ) {
            Ok(delta) => {
                let gain = delta * BASIS_POINT_MAX;
                if gain > u128::MAX {
                    Err(PoolError::MathOverflow)
                } else if self.volatility_reference + gain > u128::MAX {
                    Err(PoolError::MathOverflow)
                } else {
                    let candidate = (self.volatility_reference + gain) as u128;
                    let capped = if candidate < self.max_volatility_accumulator as u128 {
                        candidate
                    } else {
                        self.max_volatility_accumulator as u128
                    };
                    Ok(DynamicFeeStruct { volatility_accumulator: capped, ..self })
                }
            },
            Err(e) => Err(e),
        }
    }

    pub fn update_volatility_accumulator(&mut self, sqrt_price: u128) -> (res: Result<
        (),
        PoolError,
    >)
        ensures
            match res {
                Ok(()) => old(self).spec_update_volatility_accumulator(sqrt_price)
                    == Result::<DynamicFeeStruct, PoolError>::Ok(*final(self)),
                Err(e) => old(self).spec_update_volatility_accumulator(sqrt_price)
                    == Result::<DynamicFeeStruct, PoolError>::Err(e) && *final(self) == *old(
                self),
            },
    {
        let delta = Self::get_delta_bin_id(
            self.bin_step_u128,
            self.sqrt_price_reference,
            sqrt_price,
        )?;
        let gain = safe_mul_u128(delta, BASIS_POINT_MAX as u128)?;
        let candidate = safe_add_u128(self.volatility_reference, gain)?;
        let cap = self.max_volatility_accumulator as u128;
        self.volatility_accumulator = if candidate < cap {
            candidate
        } else {
            cap
        };
        Ok(())
    }
}

/// The split of a total fee amount, in extraction order: the protocol share
/// is taken first, the referral share is carved from it, the partner share
/// comes out of the remainder after the protocol, and the LP share is what
/// is left.  Returns `(lp, protocol, partner, referral)`.
pub open spec fn spec_fee_split(
    total_fee: nat,
    protocol_pct: nat,
    partner_pct: nat,
    referral_pct: nat,
    has_referral: bool,
) -> (nat, nat, nat, nat)
    recommends
        protocol_pct <= 100,
        partner_pct <= 100,
        referral_pct <= 100,
{
    let protocol_gross = (total_fee * protocol_pct) / 100;
    let remainder = (total_fee - protocol_gross) as nat;
    let referral = if has_referral {
        (protocol_gross * referral_pct) / 100
    } else {
        0
    };
    let protocol = (protocol_gross - referral) as nat;
    let partner = (remainder * partner_pct) / 100;
    let lp = (remainder - partner) as nat;
    (lp, protocol, partner, referral)
}

/// A percentage share of an amount never exceeds the amount.
pub proof fn lemma_pct_share_le(amount: nat, pct: nat)
    requires
        pct <= 100,
    ensures
        (amount * pct) / 100 <= amount,
{
    lemma_mul_inequality(pct as int, 100, amount as int);
    assert(amount * pct == pct * amount) by (nonlinear_arith);
    assert(amount * 100 == 100 * amount) by (nonlinear_arith);
    lemma_div_is_ordered((amount * pct) as int, (amount * 100) as int, 100);
    lemma_div_by_multiple(amount as int, 100);
}

impl PoolFeesStruct {
    /// Validity of the fee parameters; established at configuration time
    /// and preserved by every operation.
    pub open spec fn spec_is_valid(self) -> bool {
        &&& self.protocol_fee_percent <= 100
        &&& self.partner_fee_percent <= 100
        &&& self.referral_fee_percent <= 100
        &&& self.trade_fee_numerator <= MAX_FEE_NUMERATOR
        &&& (self.dynamic_fee.spec_is_enabled() ==> self.dynamic_fee.bin_step_u128 > 0)
    }

    pub fn validate(&self) -> (r: bool)
        ensures
            r == self.spec_is_valid(),
    {
        self.protocol_fee_percent <= 100 && self.partner_fee_percent <= 100
            && self.referral_fee_percent <= 100 && self.trade_fee_numerator <= MAX_FEE_NUMERATOR
            && (!self.dynamic_fee.is_dynamic_fee_enable() || self.dynamic_fee.bin_step_u128 > 0)
    }

    /// The combined fee numerator: static plus dynamic, capped at the
    /// protocol maximum.
    pub open spec fn spec_fee_numerator(self) -> Result<nat, PoolError> {
        match self.dynamic_fee.spec_variable_fee() {
            Ok(vf) => {
                let total = self.trade_fee_numerator + vf;
                if total > MAX_FEE_NUMERATOR {
                    Ok(MAX_FEE_NUMERATOR as nat)
                } else {
                    Ok(total as nat)
                }
            },
            Err(e) => Err(e),
        }
    }

    /// Total fee numerator actually applied to a trade.
    pub fn get_total_trading_fee(&self) -> (res: Result<u64, PoolError>)
        ensures
            match res {
                Ok(v) => self.spec_fee_numerator() == Result::<nat, PoolError>::Ok(v as nat) && v
                    <= MAX_FEE_NUMERATOR,
                Err(e) => self.spec_fee_numerator() == Result::<nat, PoolError>::Err(e),
            },
    {
        let variable_fee = self.dynamic_fee.get_variable_fee()?;
        let total = safe_add_u128(self.trade_fee_numerator as u128, variable_fee)?;
        if total > MAX_FEE_NUMERATOR as u128 {
            Ok(MAX_FEE_NUMERATOR)
        } else {
            Ok(total as u64)
        }
    }

    /// The fee taken from `amount` and its split.
    ///
    /// Exact-in: `amount` is gross; the total fee is
    /// `ceil(amount * fee / FEE_DENOMINATOR)` and the returned amount is the
    /// net that reaches the curve.  Exact-out: `amount` is the net the curve
    /// requires; the returned amount is the gross
    /// `ceil(amount * FEE_DENOMINATOR / (FEE_DENOMINATOR - fee))` that must
    /// be charged, failing when that leaves the 64-bit range.
    pub open spec fn spec_get_fee_on_amount(self, amount: nat, has_referral: bool, is_exact_out:
        bool) -> Result<(nat, nat, nat, nat, nat), PoolError> {
        match self.spec_fee_numerator() {
            Ok(num) => {
                if is_exact_out {
                    let gross = ceil_div(
                        amount * (FEE_DENOMINATOR as nat),
                        (FEE_DENOMINATOR - num) as nat,
                    );
                    if gross > u64::MAX {
                        Err(PoolError::TypeCastFailed)
                    } else {
                        let total_fee = (gross - amount) as nat;
                        let (lp, protocol, partner, referral) = spec_fee_split(
                            total_fee,
                            self.protocol_fee_percent as nat,
                            self.partner_fee_percent as nat,
                            self.referral_fee_percent as nat,
                            has_referral,
                        );
                        Ok((gross, lp, protocol, partner, referral))
                    }
                } else {
                    let total_fee = ceil_div(amount * num, FEE_DENOMINATOR as nat);
                    let net = (amount - total_fee) as nat;
                    let (lp, protocol, partner, referral) = spec_fee_split(
                        total_fee,
                        self.protocol_fee_percent as nat,
                        self.partner_fee_percent as nat,
                        self.referral_fee_percent as nat,
                        has_referral,
                    );
                    Ok((net, lp, protocol, partner, referral))
                }
            },
            Err(e) => Err(e),
        }
    }

    pub fn get_fee_on_amount(&self, amount: u64, has_referral: bool, is_exact_out: bool) -> (res:
        Result<FeeOnAmountResult, PoolError>)
        requires
            self.spec_is_valid(),
        ensures
            match res {
                Ok(f) => self.spec_get_fee_on_amount(amount as nat, has_referral, is_exact_out)
                    == Result::<(nat, nat, nat, nat, nat), PoolError>::Ok(
                    (
                        f.amount as nat,
                        f.lp_fee as nat,
                        f.protocol_fee as nat,
                        f.partner_fee as nat,
                        f.referral_fee as nat,
                    ),
                ),
                Err(e) => self.spec_get_fee_on_amount(amount as nat, has_referral, is_exact_out)
                    == Result::<(nat, nat, nat, nat, nat), PoolError>::Err(e),
            },
    {
        let num = self.get_total_trading_fee()?;
        let (out_amount, total_fee): (u64, u64) = if is_exact_out {
            let gross = match mul_div(
                amount as u128,
                FEE_DENOMINATOR as u128,
                (FEE_DENOMINATOR - num) as u128,
                Rounding::Up,
            ) {
                Some(g) => g,
                None => {
                    proof {
                        // the gross amount is bounded by amount * FEE_DENOMINATOR,
                        // which is far below the 128-bit range
                        let a = amount as nat * FEE_DENOMINATOR as nat;
                        let den = (FEE_DENOMINATOR - num) as nat;
                        assert(a <= a * den) by (nonlinear_arith)
                            requires
                                den >= 1,
                        ;
                        lemma_ceil_div_le(a, den, a);
                        assert(a < u128::MAX) by (nonlinear_arith)
                            requires
                                a == (amount as nat) * 1000000000nat,
                                (amount as nat) <= 0xFFFFFFFFFFFFFFFFnat,
                        ;
                        assert(false);
                    }
                    return Err(PoolError::MathOverflow);
                },
            };
            if gross > u64::MAX as u128 {
                return Err(PoolError::TypeCastFailed);
            }
            proof {
                // the gross amount covers the net amount
                assert(amount as nat * FEE_DENOMINATOR as nat >= amount as nat * ((
                FEE_DENOMINATOR - num) as nat)) by (nonlinear_arith)
                    requires
                        num <= FEE_DENOMINATOR,
                ;
                lemma_floor_div_ge(
                    amount as nat * FEE_DENOMINATOR as nat,
                    (FEE_DENOMINATOR - num) as nat,
                    amount as nat,
                );
                assert(ceil_div(
                    amount as nat * FEE_DENOMINATOR as nat,
                    (FEE_DENOMINATOR - num) as nat,
                ) >= (amount as nat * FEE_DENOMINATOR as nat) / ((FEE_DENOMINATOR - num) as nat));
            }
            (gross as u64, gross as u64 - amount)
        } else {
            let total_fee = match mul_div(
                amount as u128,
                num as u128,
                FEE_DENOMINATOR as u128,
                Rounding::Up,
            ) {
                Some(f) => f,
                None => {
                    proof {
                        // the fee is bounded by amount * fee numerator, far
                        // below the 128-bit range
                        let a = amount as nat * num as nat;
                        assert(a <= a * (FEE_DENOMINATOR as nat)) by (nonlinear_arith);
                        lemma_ceil_div_le(a, FEE_DENOMINATOR as nat, a);
                        assert(a < u128::MAX) by (nonlinear_arith)
                            requires
                                a == (amount as nat) * (num as nat),
                                (amount as nat) <= 0xFFFFFFFFFFFFFFFFnat,
                                (num as nat) <= 0xFFFFFFFFFFFFFFFFnat,
                        ;
                        assert(false);
                    }
                    return Err(PoolError::MathOverflow);
                },
            };
            proof {
                // the fee cannot exceed the amount it is taken from
                assert(amount as nat * num as nat <= amount as nat * FEE_DENOMINATOR as nat)
                    by (nonlinear_arith)
                    requires
                        num <= FEE_DENOMINATOR,
                ;
                lemma_ceil_div_le(
                    amount as nat * num as nat,
                    FEE_DENOMINATOR as nat,
                    amount as nat,
                );
            }
            (amount - (total_fee as u64), total_fee as u64)
        };
        let (lp_fee, protocol_fee, partner_fee, referral_fee) = split_fees(
            total_fee,
            self.protocol_fee_percent,
            self.partner_fee_percent,
            self.referral_fee_percent,
            has_referral,
        );
        Ok(
            FeeOnAmountResult {
                amount: out_amount,
                lp_fee,
                protocol_fee,
                partner_fee,
                referral_fee,
            },
        )
    }
}

/// Split a total fee in the fixed extraction order.
fn split_fees(total_fee: u64, protocol_pct: u8, partner_pct: u8, referral_pct: u8, has_referral:
    bool) -> (res: (u64, u64, u64, u64))
    requires
        protocol_pct <= 100,
        partner_pct <= 100,
        referral_pct <= 100,
    ensures
        (res.0 as nat, res.1 as nat, res.2 as nat, res.3 as nat) == spec_fee_split(
            total_fee as nat,
            protocol_pct as nat,
            partner_pct as nat,
            referral_pct as nat,
            has_referral,
        ),
{
    proof {
        lemma_pct_share_le(total_fee as nat, protocol_pct as nat);
    }
    let protocol_gross = ((total_fee as u128 * protocol_pct as u128) / 100) as u64;
    let remainder = total_fee - protocol_gross;
    proof {
        lemma_pct_share_le(protocol_gross as nat, referral_pct as nat);
        lemma_pct_share_le(remainder as nat, partner_pct as nat);
    }
    let referral = if has_referral {
        ((protocol_gross as u128 * referral_pct as u128) / 100) as u64
    } else {
        0
    };
    let protocol = protocol_gross - referral;
    let partner = ((remainder as u128 * partner_pct as u128) / 100) as u64;
    let lp = remainder - partner;
    (lp, protocol, partner, referral)
}

impl FeeMode {
    /// Which token and which side carry the fee, per collect-fee-mode and
    /// trade direction.
    pub open spec fn spec_fee_mode(collect_fee_mode: u8, trade_direction: TradeDirection,
        has_referral: bool) -> Result<FeeMode, PoolError> {
        if collect_fee_mode == 0 {
            // both tokens: the fee is charged on the output token
            Ok(
                FeeMode {
                    fees_on_input: false,
                    fees_on_token_a: trade_direction == TradeDirection::BtoA,
                    has_referral,
                },
            )
        } else if collect_fee_mode == 1 {
            // only token B ever carries a fee
            Ok(
                FeeMode {
                    fees_on_input: trade_direction == TradeDirection::BtoA,
                    fees_on_token_a: false,
                    has_referral,
                },
            )
        } else {
            Err(PoolError::InvalidCollectFeeMode)
        }
    }

    pub fn get_fee_mode(collect_fee_mode: u8, trade_direction: TradeDirection, has_referral:
        bool) -> (res: Result<FeeMode, PoolError>)
        ensures
            res == Self::spec_fee_mode(collect_fee_mode, trade_direction, has_referral),
    {
        if collect_fee_mode == 0 {
            Ok(
                FeeMode {
                    fees_on_input: false,
                    fees_on_token_a: matches!(trade_direction, TradeDirection::BtoA),
                    has_referral,
                },
            )
        } else if collect_fee_mode == 1 {
            Ok(
                FeeMode {
                    fees_on_input: matches!(trade_direction, TradeDirection::BtoA),
                    fees_on_token_a: false,
                    has_referral,
                },
            )
        } else {
            Err(PoolError::InvalidCollectFeeMode)
        }
    }
}

/// With a zero fee numerator the exact-in fee step passes the amount
/// through whole and every share is zero.
pub proof fn lemma_zero_fee_identity(fees: PoolFeesStruct, amount: nat, has_referral: bool)
    requires
        fees.trade_fee_numerator == 0,
        !fees.dynamic_fee.spec_is_enabled(),
        amount <= u64::MAX,
    ensures
        fees.spec_get_fee_on_amount(amount, has_referral, false) == Result::<
            (nat, nat, nat, nat, nat),
            PoolError,
        >::Ok((amount, 0, 0, 0, 0)),
{
    assert(fees.spec_fee_numerator() == Result::<nat, PoolError>::Ok(0));
    assert(amount * 0 == 0) by (nonlinear_arith);
    assert(ceil_div(0, FEE_DENOMINATOR as nat) == 0);
    assert(0nat * (fees.protocol_fee_percent as nat) == 0) by (nonlinear_arith);
    assert(0nat * (fees.partner_fee_percent as nat) == 0) by (nonlinear_arith);
    assert(0nat * (fees.referral_fee_percent as nat) == 0) by (nonlinear_arith);
}

/// The fee split conserves every unit: the LP, protocol, partner and
/// referral shares sum exactly to the total fee extracted.  Without a
/// referral the three remaining shares carry the whole fee.
pub proof fn lemma_fee_split_conservation(
    total_fee: nat,
    protocol_pct: nat,
    partner_pct: nat,
    referral_pct: nat,
    has_referral: bool,
)
    requires
        protocol_pct <= 100,
        partner_pct <= 100,
        referral_pct <= 100,
    ensures
        ({
            let (lp, protocol, partner, referral) = spec_fee_split(
                total_fee,
                protocol_pct,
                partner_pct,
                referral_pct,
                has_referral,
            );
            &&& lp + protocol + partner + referral == total_fee
            &&& !has_referral ==> referral == 0 && lp + protocol + partner == total_fee
        }),
{
    lemma_pct_share_le(total_fee, protocol_pct);
    let protocol_gross = (total_fee * protocol_pct) / 100;
    lemma_pct_share_le(protocol_gross, referral_pct);
    lemma_pct_share_le((total_fee - protocol_gross) as nat, partner_pct);
}

/// When the referral percentage is at most half, the referral share never
/// exceeds what the protocol keeps.
pub proof fn lemma_referral_bounded_by_protocol(
    total_fee: nat,
    protocol_pct: nat,
    partner_pct: nat,
    referral_pct: nat,
)
    requires
        protocol_pct <= 100,
        partner_pct <= 100,
        referral_pct <= 50,
    ensures
        ({
            let (lp, protocol, partner, referral) = spec_fee_split(
                total_fee,
                protocol_pct,
                partner_pct,
                referral_pct,
                true,
            );
            referral <= protocol
        }),
{
    let g = (total_fee * protocol_pct) / 100;
    let referral = (g * referral_pct) / 100;
    lemma_pct_share_le(total_fee, protocol_pct);
    // referral <= floor(g / 2), so twice the referral fits inside g
    lemma_mul_inequality(referral_pct as int, 50, g as int);
    assert(g * referral_pct == referral_pct * g) by (nonlinear_arith);
    assert(g * 50 == 50 * g) by (nonlinear_arith);
    lemma_div_is_ordered((g * referral_pct) as int, (g * 50) as int, 100);
    lemma_div_denominator((g * 50) as int, 50, 2);
    lemma_div_by_multiple(g as int, 50);
    assert((g * 50) / 100 == g / 2);
    lemma_floor_div_bounds(g, 2);
    assert(referral <= g / 2);
    assert(2 * (g / 2) <= g) by {
        lemma_floor_div_bounds(g, 2);
    }
}

} // verus!
