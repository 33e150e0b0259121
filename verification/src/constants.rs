//! Numeric constants the whole engine depends on.  Any compatible
//! implementation must match these exactly.

use vstd::prelude::*;

verus! {

/// Fractional bits of the Q64.64 square-root price.
pub const RESOLUTION: u8 = 64;

/// Fractional bits of the per-liquidity fee and reward accumulators.
pub const LIQUIDITY_SCALE: u8 = 128;

/// Fractional bits of a reward rate.
pub const REWARD_RATE_SCALE: u8 = 64;

/// Number of reward campaign slots per pool.
pub const NUM_REWARDS: usize = 2;

/// Bounds for a reward campaign duration, in seconds.
pub const MIN_REWARD_DURATION: u64 = 1;

pub const MAX_REWARD_DURATION: u64 = 31536000;

/// Lowest representable square-root price.
pub const MIN_SQRT_PRICE: u128 = 4295048016;

/// Highest representable square-root price.
pub const MAX_SQRT_PRICE: u128 = 79226673521066979257578248091;

/// Largest supported virtual liquidity value.
pub const LIQUIDITY_MAX: u128 = 34028236692093846346337460743176821145;

/// Trade fees are expressed as numerator over this denominator.
pub const FEE_DENOMINATOR: u64 = 1_000_000_000;

/// Hard cap on the combined static plus dynamic fee numerator (50%).
pub const MAX_FEE_NUMERATOR: u64 = 500_000_000;

/// One hundred percent in basis points.
pub const BASIS_POINT_MAX: u64 = 10000;

/// One in Q64.64 fixed point.
pub const ONE_Q64: u128 = 0x10000000000000000;

} // verus!
