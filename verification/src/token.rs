//! Transfer-fee arithmetic for tokens whose mint withholds a fee on every
//! transfer.  The engine works on fee-excluded amounts internally; these
//! helpers convert between fee-included and fee-excluded amounts.
//!
//! The transfer fee configuration is modelled by its two numbers; reading
//! it from the mint account is the host's concern.

use vstd::prelude::*;
use crate::constants::BASIS_POINT_MAX;
use crate::math::{ceil_div, lemma_ceil_div_le};
use crate::PoolError;

verus! {

/// Which token program owns a mint.  The host determines this from the
/// mint account's owner and the engine stores it in the pool's and reward
/// slots' token flag bytes.
#[derive(Clone, Copy, Debug, PartialEq, Eq, Structural)]
pub enum TokenProgramFlags {
    TokenProgram,
    TokenProgram2022,
}

impl TokenProgramFlags {
    pub fn try_from_u8(value: u8) -> (res: Result<TokenProgramFlags, PoolError>)
        ensures
            value == 0 ==> res == Result::<TokenProgramFlags, PoolError>::Ok(
                TokenProgramFlags::TokenProgram,
            ),
            value == 1 ==> res == Result::<TokenProgramFlags, PoolError>::Ok(
                TokenProgramFlags::TokenProgram2022,
            ),
            value >= 2 ==> res is Err,
    {
        if value == 0 {
            Ok(TokenProgramFlags::TokenProgram)
        } else if value == 1 {
            Ok(TokenProgramFlags::TokenProgram2022)
        } else {
            Err(PoolError::TypeCastFailed)
        }
    }
}

/// A mint's transfer fee schedule: a basis-point rate and a hard cap.
#[derive(Clone, Copy, Debug, PartialEq, Eq, Structural)]
pub struct TransferFee {
    /// Fee rate in basis points, at most `BASIS_POINT_MAX`.
    pub transfer_fee_basis_points: u16,
    /// The fee never exceeds this amount.
    pub maximum_fee: u64,
}

/// A gross amount together with the fee contained in it.
#[derive(Clone, Copy, Debug, PartialEq, Eq, Structural)]
pub struct TransferFeeIncludedAmount {
    pub amount: u64,
    pub transfer_fee: u64,
}

/// A net amount together with the fee that was withheld from the gross.
#[derive(Clone, Copy, Debug, PartialEq, Eq, Structural)]
pub struct TransferFeeExcludedAmount {
    pub amount: u64,
    pub transfer_fee: u64,
}

impl TransferFee {
    /// The fee withheld from a gross amount:
    /// `min(ceil(amount * bps / 10000), maximum_fee)`.
    pub open spec fn spec_calculate_fee(self, amount: nat) -> nat {
        let raw = ceil_div(amount * (self.transfer_fee_basis_points as nat), BASIS_POINT_MAX as nat);
        if raw > self.maximum_fee {
            self.maximum_fee as nat
        } else {
            raw
        }
    }

    pub fn calculate_fee(&self, amount: u64) -> (res: Result<u64, PoolError>)
        requires
            self.transfer_fee_basis_points <= BASIS_POINT_MAX,
        ensures
            match res {
                Ok(v) => v == self.spec_calculate_fee(amount as nat) && v <= amount,
                Err(_) => false,
            },
    {
        let bps = self.transfer_fee_basis_points as u128;
        proof {
            assert((amount as nat) * (bps as nat) <= 0xFFFFFFFFFFFFFFFFnat * 10000)
                by (nonlinear_arith)
                requires
                    (amount as nat) <= 0xFFFFFFFFFFFFFFFFnat,
                    (bps as nat) <= 10000,
            ;
        }
        let numerator = (amount as u128) * bps;
        let raw = if numerator == 0 {
            0u128
        } else {
            (numerator - 1) / (BASIS_POINT_MAX as u128) + 1
        };
        proof {
            lemma_ceil_div_of_pos(amount as nat * bps as nat, BASIS_POINT_MAX as nat);
            // the raw fee never exceeds the amount itself
            assert(amount as nat * bps as nat <= amount as nat * (BASIS_POINT_MAX as nat))
                by (nonlinear_arith)
                requires
                    (bps as nat) <= BASIS_POINT_MAX,
            ;
            lemma_ceil_div_le(
                amount as nat * bps as nat,
                BASIS_POINT_MAX as nat,
                amount as nat,
            );
        }
        if raw > self.maximum_fee as u128 {
            Ok(self.maximum_fee)
        } else {
            proof {
                if (raw as u64) > amount {
                    assert(false);
                }
            }
            Ok(raw as u64)
        }
    }
}

/// The net amount left of a gross transfer once the mint's fee (if any) is
/// withheld.
pub open spec fn spec_transfer_fee_excluded(transfer_fee: Option<TransferFee>, included: nat) ->
    Result<(nat, nat), PoolError> {
    match transfer_fee {
        Some(tf) => {
            let fee = tf.spec_calculate_fee(included);
            if fee > included {
                Err(PoolError::MathOverflow)
            } else {
                Ok(((included - fee) as nat, fee))
            }
        },
        None => Ok((included, 0)),
    }
}

pub fn calculate_transfer_fee_excluded_amount(
    transfer_fee: Option<TransferFee>,
    transfer_fee_included_amount: u64,
) -> (res: Result<TransferFeeExcludedAmount, PoolError>)
    requires
        match transfer_fee {
            Some(tf) => tf.transfer_fee_basis_points <= BASIS_POINT_MAX,
            None => true,
        },
    ensures
        match res {
            Ok(r) => spec_transfer_fee_excluded(
                transfer_fee,
                transfer_fee_included_amount as nat,
            ) == Result::<(nat, nat), PoolError>::Ok((r.amount as nat, r.transfer_fee as nat)),
            Err(e) => spec_transfer_fee_excluded(
                transfer_fee,
                transfer_fee_included_amount as nat,
            ) == Result::<(nat, nat), PoolError>::Err(e),
        },
{
    match transfer_fee {
        Some(tf) => {
            let fee = tf.calculate_fee(transfer_fee_included_amount)?;
            Ok(
                TransferFeeExcludedAmount {
                    amount: transfer_fee_included_amount - fee,
                    transfer_fee: fee,
                },
            )
        },
        None => Ok(
            TransferFeeExcludedAmount { amount: transfer_fee_included_amount, transfer_fee: 0 },
        ),
    }
}

/// The gross amount that must be sent so that `post_fee_amount` arrives
/// after the fee, mirroring the token program's own inverse computation:
/// zero stays zero, a zero rate passes through, the maximal rate adds the
/// fee cap, and otherwise the amount is grossed up against
/// `1 - rate`, falling back to the cap when the implied fee reaches it.
pub open spec fn spec_pre_fee_amount(tf: TransferFee, post_fee_amount: nat) -> Option<nat> {
    let bps = tf.transfer_fee_basis_points as nat;
    if post_fee_amount == 0 {
        Some(0)
    } else if bps == 0 {
        Some(post_fee_amount)
    } else if bps == BASIS_POINT_MAX {
        if tf.maximum_fee + post_fee_amount > u64::MAX {
            None
        } else {
            Some((tf.maximum_fee + post_fee_amount) as nat)
        }
    } else {
        let numerator = post_fee_amount * (BASIS_POINT_MAX as nat);
        let raw = ((numerator + BASIS_POINT_MAX - 1) / ((BASIS_POINT_MAX as nat) - bps)) as nat;
        if raw < post_fee_amount {
            None
        } else if raw - post_fee_amount >= tf.maximum_fee {
            if post_fee_amount + tf.maximum_fee > u64::MAX {
                None
            } else {
                Some((post_fee_amount + tf.maximum_fee) as nat)
            }
        } else {
            if raw > u64::MAX {
                None
            } else {
                Some(raw)
            }
        }
    }
}

/// Gross amount needed so that `post_fee_amount` arrives net of the fee.
pub fn calculate_pre_fee_amount(transfer_fee: &TransferFee, post_fee_amount: u64) -> (res:
    Option<u64>)
    requires
        transfer_fee.transfer_fee_basis_points <= BASIS_POINT_MAX,
    ensures
        match res {
            Some(v) => spec_pre_fee_amount(*transfer_fee, post_fee_amount as nat) == Some(
                v as nat,
            ),
            None => spec_pre_fee_amount(*transfer_fee, post_fee_amount as nat) is None,
        },
{
    if post_fee_amount == 0 {
        return Some(0);
    }
    let maximum_fee = transfer_fee.maximum_fee;
    let transfer_fee_basis_points = transfer_fee.transfer_fee_basis_points as u128;
    if transfer_fee_basis_points == 0 {
        Some(post_fee_amount)
    } else if transfer_fee_basis_points == BASIS_POINT_MAX as u128 {
        if u64::MAX - maximum_fee >= post_fee_amount {
            Some(maximum_fee + post_fee_amount)
        } else {
            None
        }
    } else {
        proof {
            assert((post_fee_amount as nat) * 10000 <= 0xFFFFFFFFFFFFFFFFnat * 10000)
                by (nonlinear_arith)
                requires
                    (post_fee_amount as nat) <= 0xFFFFFFFFFFFFFFFFnat,
            ;
        }
        let numerator = (post_fee_amount as u128) * (BASIS_POINT_MAX as u128);
        let denominator = (BASIS_POINT_MAX as u128) - transfer_fee_basis_points;
        let raw_pre_fee_amount = (numerator + (BASIS_POINT_MAX as u128) - 1) / denominator;
        if raw_pre_fee_amount < post_fee_amount as u128 {
            None
        } else if raw_pre_fee_amount - (post_fee_amount as u128) >= maximum_fee as u128 {
            if u64::MAX - post_fee_amount >= maximum_fee {
                Some(post_fee_amount + maximum_fee)
            } else {
                None
            }
        } else {
            if raw_pre_fee_amount > u64::MAX as u128 {
                None
            } else {
                Some(raw_pre_fee_amount as u64)
            }
        }
    }
}

/// The fee that would be withheld when sending enough gross for
/// `post_fee_amount` to arrive.
pub fn calculate_inverse_fee(transfer_fee: &TransferFee, post_fee_amount: u64) -> (res: Option<
    u64,
>)
    requires
        transfer_fee.transfer_fee_basis_points <= BASIS_POINT_MAX,
    ensures
        match res {
            Some(v) => match spec_pre_fee_amount(*transfer_fee, post_fee_amount as nat) {
                Some(pre) => pre <= u64::MAX && v == transfer_fee.spec_calculate_fee(pre),
                None => false,
            },
            None => spec_pre_fee_amount(*transfer_fee, post_fee_amount as nat) is None,
        },
{
    let pre_fee_amount = match calculate_pre_fee_amount(transfer_fee, post_fee_amount) {
        Some(v) => v,
        None => {
            return None;
        },
    };
    match transfer_fee.calculate_fee(pre_fee_amount) {
        Ok(v) => Some(v),
        Err(_) => None,
    }
}

/// The gross amount to transfer so that `transfer_fee_excluded_amount`
/// arrives, together with the fee.  At the maximal rate the fee cap is
/// charged outright.
pub open spec fn spec_transfer_fee_included(transfer_fee: Option<TransferFee>, excluded: nat) ->
    Result<(nat, nat), PoolError> {
    match transfer_fee {
        Some(tf) => {
            if excluded == 0 {
                Ok((0, 0))
            } else {
                let fee_res: Result<nat, PoolError> = if tf.transfer_fee_basis_points
                    == BASIS_POINT_MAX {
                    Ok(tf.maximum_fee as nat)
                } else {
                    match spec_pre_fee_amount(tf, excluded) {
                        Some(pre) => {
                            if pre > u64::MAX {
                                Err(PoolError::MathOverflow)
                            } else {
                                Ok(tf.spec_calculate_fee(pre))
                            }
                        },
                        None => Err(PoolError::MathOverflow),
                    }
                };
                match fee_res {
                    Ok(fee) => {
                        if excluded + fee > u64::MAX {
                            Err(PoolError::MathOverflow)
                        } else {
                            Ok(((excluded + fee) as nat, fee))
                        }
                    },
                    Err(e) => Err(e),
                }
            }
        },
        None => Ok((excluded, 0)),
    }
}

pub fn calculate_transfer_fee_included_amount(
    transfer_fee: Option<TransferFee>,
    transfer_fee_excluded_amount: u64,
) -> (res: Result<TransferFeeIncludedAmount, PoolError>)
    requires
        match transfer_fee {
            Some(tf) => tf.transfer_fee_basis_points <= BASIS_POINT_MAX,
            None => true,
        },
    ensures
        match res {
            Ok(r) => spec_transfer_fee_included(
                transfer_fee,
                transfer_fee_excluded_amount as nat,
            ) == Result::<(nat, nat), PoolError>::Ok((r.amount as nat, r.transfer_fee as nat)),
            Err(e) => spec_transfer_fee_included(
                transfer_fee,
                transfer_fee_excluded_amount as nat,
            ) == Result::<(nat, nat), PoolError>::Err(e),
        },
{
    let tf = match transfer_fee {
        Some(tf) => tf,
        None => {
            return Ok(
                TransferFeeIncludedAmount {
                    amount: transfer_fee_excluded_amount,
                    transfer_fee: 0,
                },
            );
        },
    };
    if transfer_fee_excluded_amount == 0 {
        return Ok(TransferFeeIncludedAmount { amount: 0, transfer_fee: 0 });
    }
    let fee: u64 = if tf.transfer_fee_basis_points == BASIS_POINT_MAX as u16 {
        // at a 100% rate the inverse is degenerate; charge the cap outright
        tf.maximum_fee
    } else {
        match calculate_inverse_fee(&tf, transfer_fee_excluded_amount) {
            Some(f) => f,
            None => {
                return Err(PoolError::MathOverflow);
            },
        }
    };
    if u64::MAX - transfer_fee_excluded_amount >= fee {
        Ok(
            TransferFeeIncludedAmount {
                amount: transfer_fee_excluded_amount + fee,
                transfer_fee: fee,
            },
        )
    } else {
        Err(PoolError::MathOverflow)
    }
}

/// A positive dividend's rounded-up quotient equals `(a - 1) / d + 1`.
proof fn lemma_ceil_div_of_pos(a: nat, d: nat)
    requires
        d > 0,
    ensures
        a == 0 ==> ceil_div(a, d) == 0,
        a > 0 ==> ceil_div(a, d) == (a - 1) as nat / d + 1,
{
    vstd::arithmetic::div_mod::lemma_fundamental_div_mod(a as int, d as int);
    if a > 0 {
        vstd::arithmetic::div_mod::lemma_fundamental_div_mod((a - 1) as int, d as int);
        assert(ceil_div(a, d) == (a - 1) as nat / d + 1) by (nonlinear_arith)
            requires
                d > 0,
                a > 0,
                a == d * ((a as int) / (d as int)) + (a as int) % (d as int),
                0 <= (a as int) % (d as int) < d,
                a - 1 == d * (((a - 1) as int) / (d as int)) + ((a - 1) as int) % (d as int),
                0 <= ((a - 1) as int) % (d as int) < d,
                ceil_div(a, d) == if a % d == 0 {
                    a / d
                } else {
                    a / d + 1
                },
        ;
    }
}

} // verus!
