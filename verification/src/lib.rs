//! Core engine of a constant-product automated market maker pool.
//!
//! The pool tracks a virtual liquidity value and a bounded square-root price
//! in Q64.64 fixed point.  This crate implements the pricing curve, the fee
//! model, the pool accounting state machine and the time-based reward
//! accrual engine, with machine-checked contracts for every operation.

use vstd::prelude::*;

pub mod constants;
pub mod safe_math;
pub mod math;
pub mod curve;
pub mod fee;
pub mod pool;
pub mod position;
pub mod pool_action_access;
pub mod token;
pub mod u256;
pub mod utils_math;

verus! {

/// Every fallible core operation returns exactly one of these error kinds.
/// There is no local recovery: a failure aborts the whole operation and the
/// caller discards all partial effects.
#[derive(Clone, Copy, Debug, PartialEq, Eq, Structural)]
pub enum PoolError {
    /// A checked arithmetic step exceeded its width or divided by zero.
    MathOverflow,
    /// A wide intermediate result does not fit the narrower output type.
    TypeCastFailed,
    /// A computed price would exit the pool's `[sqrt_min_price, sqrt_max_price]` range.
    PriceRangeViolation,
    /// The collect-fee-mode byte does not name a known mode.
    InvalidCollectFeeMode,
    /// A reward slot index is outside the fixed slot count.
    InvalidRewardIndex,
    /// A reward campaign duration is outside the allowed bounds.
    InvalidRewardDuration,
    /// The addressed reward slot has not been initialized yet.
    RewardUninitialized,
    /// The addressed reward slot is already initialized.
    RewardInitialized,
    /// A caller-specified minimum/maximum output bound was not met.
    ExceededSlippage,
}

/// Direction of a swap: token A in for token B out, or the reverse.
#[derive(Clone, Copy, Debug, PartialEq, Eq, Structural)]
pub enum TradeDirection {
    AtoB,
    BtoA,
}

/// Rounding mode for the fixed-point primitives.  Every call site selects
/// explicitly who bears the rounding error.
#[derive(Clone, Copy, Debug, PartialEq, Eq, Structural)]
pub enum Rounding {
    Up,
    Down,
}

} // verus!
