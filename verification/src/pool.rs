//! The pool accounting state machine: price and liquidity state, swap
//! orchestration, fee bookkeeping and reward slots.
//!
//! Every mutating operation computes its outcome first and commits only
//! when nothing can fail any more: on an error the pool is untouched.

use vstd::prelude::*;
use crate::constants::{
    LIQUIDITY_SCALE, MAX_REWARD_DURATION, MIN_REWARD_DURATION, NUM_REWARDS, REWARD_RATE_SCALE,
};
use crate::curve::{
    delta_amount_a_spec, delta_amount_b_spec, get_delta_amount_a_unsigned,
    get_delta_amount_a_unsigned_unchecked, get_delta_amount_b_unsigned, get_next_sqrt_price,
    spec_delta_amount_a_u64, spec_delta_amount_b_u64, spec_next_sqrt_price,
};
use crate::fee::{DynamicFeeStruct, FeeMode, FeeOnAmountResult, PoolFeesStruct};
use crate::math::{ceil_div, shl_div_256};
use crate::safe_math::{safe_add_u64, safe_sub_u64, safe_add_u128, safe_sub_u128, safe_mul_u128};
use crate::u256::{U256, p64, p128, p256, lemma_pow2_values};
use crate::utils_math::{safe_mul_shr_cast, safe_shl_div_cast};
use crate::{PoolError, Rounding, TradeDirection};

verus! {

/// A 32-byte account address, modelled as two 128-bit halves.  The core
/// only ever compares addresses for equality.
#[derive(Clone, Copy, Debug, PartialEq, Eq, Structural)]
pub struct Pubkey {
    pub hi: u128,
    pub lo: u128,
}

impl Pubkey {
    /// The all-zero address, used as "not set".
    pub fn zero() -> (r: Pubkey)
        ensures
            r == (Pubkey { hi: 0, lo: 0 }),
    {
        Pubkey { hi: 0, lo: 0 }
    }

    pub open spec fn spec_is_zero(self) -> bool {
        self.hi == 0 && self.lo == 0
    }

    pub fn is_zero(&self) -> (r: bool)
        ensures
            r == self.spec_is_zero(),
    {
        self.hi == 0 && self.lo == 0
    }
}

/// Which token carries trade fees.
#[derive(Clone, Copy, Debug, PartialEq, Eq, Structural)]
pub enum CollectFeeMode {
    /// Fees are charged on whichever token is the output of a swap.
    BothToken,
    /// Fees are always charged on token B.
    OnlyB,
}

impl CollectFeeMode {
    pub fn try_from_u8(value: u8) -> (res: Result<CollectFeeMode, PoolError>)
        ensures
            value == 0 ==> res == Result::<CollectFeeMode, PoolError>::Ok(
                CollectFeeMode::BothToken,
            ),
            value == 1 ==> res == Result::<CollectFeeMode, PoolError>::Ok(CollectFeeMode::OnlyB),
            value >= 2 ==> res == Result::<CollectFeeMode, PoolError>::Err(
                PoolError::InvalidCollectFeeMode,
            ),
    {
        if value == 0 {
            Ok(CollectFeeMode::BothToken)
        } else if value == 1 {
            Ok(CollectFeeMode::OnlyB)
        } else {
            Err(PoolError::InvalidCollectFeeMode)
        }
    }
}

/// Whether the pool accepts operations.
#[derive(Clone, Copy, Debug, PartialEq, Eq, Structural)]
pub enum PoolStatus {
    Enable,
    Disable,
}

impl PoolStatus {
    pub fn try_from_u8(value: u8) -> (res: Result<PoolStatus, PoolError>)
        ensures
            value == 0 ==> res == Result::<PoolStatus, PoolError>::Ok(PoolStatus::Enable),
            value == 1 ==> res == Result::<PoolStatus, PoolError>::Ok(PoolStatus::Disable),
            value >= 2 ==> res is Err,
    {
        if value == 0 {
            Ok(PoolStatus::Enable)
        } else if value == 1 {
            Ok(PoolStatus::Disable)
        } else {
            Err(PoolError::TypeCastFailed)
        }
    }
}

/// How the pool was created.
#[derive(Clone, Copy, Debug, PartialEq, Eq, Structural)]
pub enum PoolType {
    Permissionless,
    Customizable,
}

impl PoolType {
    pub fn try_from_u8(value: u8) -> (res: Result<PoolType, PoolError>)
        ensures
            value == 0 ==> res == Result::<PoolType, PoolError>::Ok(PoolType::Permissionless),
            value == 1 ==> res == Result::<PoolType, PoolError>::Ok(PoolType::Customizable),
            value >= 2 ==> res is Err,
    {
        if value == 0 {
            Ok(PoolType::Permissionless)
        } else if value == 1 {
            Ok(PoolType::Customizable)
        } else {
            Err(PoolError::TypeCastFailed)
        }
    }
}

/// Aggregate lifetime counters for a pool.
#[derive(Clone, Copy, Debug, PartialEq, Eq, Structural)]
pub struct PoolMetrics {
    pub total_lp_a_fee: u128,
    pub total_lp_b_fee: u128,
    pub total_protocol_a_fee: u64,
    pub total_protocol_b_fee: u64,
    pub total_partner_a_fee: u64,
    pub total_partner_b_fee: u64,
    pub total_position: u64,
}

impl PoolMetrics {
    pub fn inc_position(&mut self) -> (res: Result<(), PoolError>)
        ensures
            match res {
                Ok(()) => old(self).total_position < u64::MAX && *final(self) == (PoolMetrics {
                    total_position: (old(self).total_position + 1) as u64,
                    ..*old(self)
                }),
                Err(e) => old(self).total_position == u64::MAX && e == PoolError::MathOverflow
                    && *final(self) == *old(self),
            },
    {
        self.total_position = safe_add_u64(self.total_position, 1)?;
        Ok(())
    }

    pub fn rec_position(&mut self) -> (res: Result<(), PoolError>)
        ensures
            match res {
                Ok(()) => old(self).total_position >= 1 && *final(self) == (PoolMetrics {
                    total_position: (old(self).total_position - 1) as u64,
                    ..*old(self)
                }),
                Err(e) => old(self).total_position == 0 && e == PoolError::MathOverflow && *final(
                self) == *old(self),
            },
    {
        self.total_position = safe_sub_u64(self.total_position, 1)?;
        Ok(())
    }

    /// The lifetime counters after adding one swap's fees to one token side.
    pub open spec fn spec_accumulate_fee(
        self,
        lp_fee: u64,
        protocol_fee: u64,
        partner_fee: u64,
        is_token_a: bool,
    ) -> Result<PoolMetrics, PoolError> {
        if is_token_a {
            if self.total_lp_a_fee + lp_fee > u128::MAX {
                Err(PoolError::MathOverflow)
            } else if self.total_protocol_a_fee + protocol_fee > u64::MAX {
                Err(PoolError::MathOverflow)
            } else if self.total_partner_a_fee + partner_fee > u64::MAX {
                Err(PoolError::MathOverflow)
            } else {
                Ok(
                    PoolMetrics {
                        total_lp_a_fee: (self.total_lp_a_fee + lp_fee) as u128,
                        total_protocol_a_fee: (self.total_protocol_a_fee + protocol_fee) as u64,
                        total_partner_a_fee: (self.total_partner_a_fee + partner_fee) as u64,
                        ..self
                    },
                )
            }
        } else {
            if self.total_lp_b_fee + lp_fee > u128::MAX {
                Err(PoolError::MathOverflow)
            } else if self.total_protocol_b_fee + protocol_fee > u64::MAX {
                Err(PoolError::MathOverflow)
            } else if self.total_partner_b_fee + partner_fee > u64::MAX {
                Err(PoolError::MathOverflow)
            } else {
                Ok(
                    PoolMetrics {
                        total_lp_b_fee: (self.total_lp_b_fee + lp_fee) as u128,
                        total_protocol_b_fee: (self.total_protocol_b_fee + protocol_fee) as u64,
                        total_partner_b_fee: (self.total_partner_b_fee + partner_fee) as u64,
                        ..self
                    },
                )
            }
        }
    }

    pub fn accumulate_fee(&mut self, lp_fee: u64, protocol_fee: u64, partner_fee: u64, is_token_a:
        bool) -> (res: Result<(), PoolError>)
        ensures
            match res {
                Ok(()) => old(self).spec_accumulate_fee(lp_fee, protocol_fee, partner_fee,
                is_token_a) == Result::<PoolMetrics, PoolError>::Ok(*final(self)),
                Err(e) => old(self).spec_accumulate_fee(lp_fee, protocol_fee, partner_fee,
                is_token_a) == Result::<PoolMetrics, PoolError>::Err(e) && *final(self) == *old(
                self),
            },
    {
        if is_token_a {
            let lp = safe_add_u128(self.total_lp_a_fee, lp_fee as u128)?;
            let protocol = safe_add_u64(self.total_protocol_a_fee, protocol_fee)?;
            let partner = safe_add_u64(self.total_partner_a_fee, partner_fee)?;
            self.total_lp_a_fee = lp;
            self.total_protocol_a_fee = protocol;
            self.total_partner_a_fee = partner;
        } else {
            let lp = safe_add_u128(self.total_lp_b_fee, lp_fee as u128)?;
            let protocol = safe_add_u64(self.total_protocol_b_fee, protocol_fee)?;
            let partner = safe_add_u64(self.total_partner_b_fee, partner_fee)?;
            self.total_lp_b_fee = lp;
            self.total_protocol_b_fee = protocol;
            self.total_partner_b_fee = partner;
        }
        Ok(())
    }
}

/// One liquidity-mining reward campaign slot.
#[derive(Clone, Copy, Debug, PartialEq, Eq, Structural)]
pub struct RewardInfo {
    /// Nonzero once the slot has been initialized; never reverts.
    pub initialized: u8,
    pub reward_token_flag: u8,
    /// Reward token mint.
    pub mint: Pubkey,
    /// Reward vault token account.
    pub vault: Pubkey,
    /// Authority allowed to fund this reward.
    pub funder: Pubkey,
    /// Campaign duration in seconds.
    pub reward_duration: u64,
    /// End of the current funding window.
    pub reward_duration_end: u64,
    /// Reward units per second, shifted by `REWARD_RATE_SCALE`.
    pub reward_rate: u128,
    /// Cumulative reward per unit of liquidity, shifted by `LIQUIDITY_SCALE`.
    pub reward_per_token_stored: U256,
    /// Last time the slot accrued, clamped to the window end.
    pub last_update_time: u64,
    /// Seconds during which rewards ran against empty liquidity; convertible
    /// into an ineligible-reward amount the funder may reclaim.
    pub cumulative_seconds_with_empty_liquidity_reward: u64,
}

impl RewardInfo {
    pub open spec fn spec_initialized(self) -> bool {
        self.initialized != 0
    }

    /// True once this reward slot is initialized; a slot never transitions
    /// back to uninitialized.
    pub fn initialized(&self) -> (r: bool)
        ensures
            r == self.spec_initialized(),
    {
        self.initialized != 0
    }

    /// Whether `funder` may fund this reward: either the injected admin
    /// authority or the slot's configured funder.
    pub fn is_valid_funder(&self, funder: Pubkey, admin: Pubkey) -> (r: bool)
        ensures
            r == (funder == admin || funder == self.funder),
    {
        funder == admin || funder == self.funder
    }

    pub fn init_reward(
        &mut self,
        mint: Pubkey,
        vault: Pubkey,
        funder: Pubkey,
        reward_duration: u64,
        reward_token_flag: u8,
    )
        ensures
            *final(self) == (RewardInfo {
                initialized: 1,
                mint,
                vault,
                funder,
                reward_duration,
                reward_token_flag,
                ..*old(self)
            }),
    {
        self.initialized = 1;
        self.mint = mint;
        self.vault = vault;
        self.funder = funder;
        self.reward_duration = reward_duration;
        self.reward_token_flag = reward_token_flag;
    }

    pub open spec fn spec_last_time_reward_applicable(self, current_time: u64) -> u64 {
        if current_time < self.reward_duration_end {
            current_time
        } else {
            self.reward_duration_end
        }
    }

    pub fn update_last_update_time(&mut self, current_time: u64)
        ensures
            *final(self) == (RewardInfo {
                last_update_time: old(self).spec_last_time_reward_applicable(current_time),
                ..*old(self)
            }),
    {
        self.last_update_time = if current_time < self.reward_duration_end {
            current_time
        } else {
            self.reward_duration_end
        };
    }

    /// Seconds of the funding window that have passed since the last
    /// accrual; fails when the recorded last update lies in the future.
    pub open spec fn spec_seconds_elapsed(self, current_time: u64) -> Result<nat, PoolError> {
        let applicable = self.spec_last_time_reward_applicable(current_time);
        if self.last_update_time > applicable {
            Err(PoolError::MathOverflow)
        } else {
            Ok((applicable - self.last_update_time) as nat)
        }
    }

    pub fn get_seconds_elapsed_since_last_update(&self, current_time: u64) -> (res: Result<
        u64,
        PoolError,
    >)
        ensures
            match res {
                Ok(v) => self.spec_seconds_elapsed(current_time) == Result::<nat,
                PoolError>::Ok(v as nat),
                Err(e) => self.spec_seconds_elapsed(current_time) == Result::<nat,
                PoolError>::Err(e),
            },
    {
        let last_time_reward_applicable = if current_time < self.reward_duration_end {
            current_time
        } else {
            self.reward_duration_end
        };
        safe_sub_u64(last_time_reward_applicable, self.last_update_time)
    }

    /// The reward-per-liquidity delta accrued since the last update:
    /// `(elapsed * reward_rate << LIQUIDITY_SCALE) / liquidity_supply`.
    pub open spec fn spec_reward_per_token_delta(self, current_time: u64, liquidity_supply: u128)
        -> Result<nat, PoolError> {
        match self.spec_seconds_elapsed(current_time) {
            Ok(elapsed) => {
                let total = elapsed * self.reward_rate;
                if total > u128::MAX {
                    Err(PoolError::MathOverflow)
                } else if liquidity_supply == 0 {
                    Err(PoolError::MathOverflow)
                } else if total * p128() >= p256() {
                    Err(PoolError::MathOverflow)
                } else {
                    Ok(((total * p128()) / (liquidity_supply as int)) as nat)
                }
            },
            Err(e) => Err(e),
        }
    }

    pub fn calculate_reward_per_token_stored_since_last_update(
        &self,
        current_time: u64,
        liquidity_supply: u128,
    ) -> (res: Result<U256, PoolError>)
        ensures
            match res {
                Ok(v) => self.spec_reward_per_token_delta(current_time, liquidity_supply)
                    == Result::<nat, PoolError>::Ok(v.v()),
                Err(e) => self.spec_reward_per_token_delta(current_time, liquidity_supply)
                    == Result::<nat, PoolError>::Err(e),
            },
    {
        let time_period = self.get_seconds_elapsed_since_last_update(current_time)?;
        let total_reward = safe_mul_u128(time_period as u128, self.reward_rate)?;
        proof {
            lemma_pow2_values();
        }
        match shl_div_256(total_reward, liquidity_supply, LIQUIDITY_SCALE) {
            Some(v) => Ok(v),
            None => Err(PoolError::MathOverflow),
        }
    }

    /// Cumulative reward per unit of liquidity.
    pub fn reward_per_token_stored(&self) -> (r: U256)
        ensures
            r == self.reward_per_token_stored,
    {
        self.reward_per_token_stored
    }

    /// The cumulative accumulator after adding a delta.
    pub fn accumulate_reward_per_token_stored(&mut self, delta: U256) -> (res: Result<
        (),
        PoolError,
    >)
        ensures
            match res {
                Ok(()) => old(self).reward_per_token_stored.v() + delta.v() < p256() && *final(
                self) == (RewardInfo {
                    reward_per_token_stored: final (self).reward_per_token_stored,
                    ..*old(self)
                }) && final (self).reward_per_token_stored.v() == old(
                    self,
                ).reward_per_token_stored.v() + delta.v(),
                Err(e) => e == PoolError::MathOverflow && old(self).reward_per_token_stored.v()
                    + delta.v() >= p256() && *final(self) == *old(self),
            },
    {
        match self.reward_per_token_stored.checked_add(delta) {
            Some(v) => {
                self.reward_per_token_stored = v;
                Ok(())
            },
            None => Err(PoolError::MathOverflow),
        }
    }

    /// The slot after accruing up to `current_time` against
    /// `liquidity_supply`.  With liquidity present the accumulator grows;
    /// with empty liquidity the elapsed seconds are carried forward instead,
    /// to be reclaimed later as ineligible reward.
    pub open spec fn spec_update_rewards(self, liquidity_supply: u128, current_time: u64) ->
        Result<RewardInfo, PoolError> {
        if !self.spec_initialized() {
            Ok(self)
        } else if liquidity_supply > 0 {
            match self.spec_reward_per_token_delta(current_time, liquidity_supply) {
                Ok(delta) => {
                    if self.reward_per_token_stored.v() + delta >= p256() {
                        Err(PoolError::MathOverflow)
                    } else {
                        Ok(
                            RewardInfo {
                                reward_per_token_stored: U256::of_nat(
                                    self.reward_per_token_stored.v() + delta,
                                ),
                                last_update_time: self.spec_last_time_reward_applicable(
                                    current_time,
                                ),
                                ..self
                            },
                        )
                    }
                },
                Err(e) => Err(e),
            }
        } else {
            match self.spec_seconds_elapsed(current_time) {
                Ok(elapsed) => {
                    if self.cumulative_seconds_with_empty_liquidity_reward + elapsed > u64::MAX {
                        Err(PoolError::MathOverflow)
                    } else {
                        Ok(
                            RewardInfo {
                                cumulative_seconds_with_empty_liquidity_reward: (
                                self.cumulative_seconds_with_empty_liquidity_reward
                                    + elapsed) as u64,
                                last_update_time: self.spec_last_time_reward_applicable(
                                    current_time,
                                ),
                                ..self
                            },
                        )
                    }
                },
                Err(e) => Err(e),
            }
        }
    }

    pub fn update_rewards(&mut self, liquidity_supply: u128, current_time: u64) -> (res: Result<
        (),
        PoolError,
    >)
        ensures
            match res {
                Ok(()) => old(self).spec_update_rewards(liquidity_supply, current_time)
                    == Result::<RewardInfo, PoolError>::Ok(*final(self)),
                Err(e) => old(self).spec_update_rewards(liquidity_supply, current_time)
                    == Result::<RewardInfo, PoolError>::Err(e) && *final(self) == *old(self),
            },
    {
        if self.initialized() {
            if liquidity_supply > 0 {
                let reward_per_token_stored_delta = self
                    .calculate_reward_per_token_stored_since_last_update(
                    current_time,
                    liquidity_supply,
                )?;
                let updated = match self.reward_per_token_stored.checked_add(
                    reward_per_token_stored_delta,
                ) {
                    Some(v) => v,
                    None => {
                        return Err(PoolError::MathOverflow);
                    },
                };
                proof {
                    updated.lemma_of_nat_roundtrip();
                }
                self.reward_per_token_stored = updated;
            } else {
                let time_period = self.get_seconds_elapsed_since_last_update(current_time)?;
                let accumulated = safe_add_u64(
                    self.cumulative_seconds_with_empty_liquidity_reward,
                    time_period,
                )?;
                self.cumulative_seconds_with_empty_liquidity_reward = accumulated;
            }
            self.update_last_update_time(current_time);
        }
        Ok(())
    }

    /// The rate after a funding event: unspent reward from the current
    /// window is folded into the new amount, the rate is recomputed over the
    /// configured duration, and the window is restarted at `current_time`.
    pub open spec fn spec_update_rate_after_funding(self, current_time: u64, funding_amount: u64)
        -> Result<RewardInfo, PoolError> {
        let total_res: Result<nat, PoolError> = if current_time >= self.reward_duration_end {
            Ok(funding_amount as nat)
        } else {
            let remaining = (self.reward_duration_end - current_time) as nat;
            let leftover = (self.reward_rate * remaining) / (p64() as int);
            if leftover > u128::MAX {
                Err(PoolError::MathOverflow)
            } else if leftover > u64::MAX {
                Err(PoolError::TypeCastFailed)
            } else if funding_amount + leftover > u64::MAX {
                Err(PoolError::MathOverflow)
            } else {
                Ok((funding_amount + leftover) as nat)
            }
        };
        match total_res {
            Ok(total) => {
                if self.reward_duration == 0 {
                    Err(PoolError::MathOverflow)
                } else {
                    let rate = (total * p64()) / self.reward_duration as nat;
                    if rate > u128::MAX {
                        Err(PoolError::MathOverflow)
                    } else if current_time + self.reward_duration > u64::MAX {
                        Err(PoolError::MathOverflow)
                    } else {
                        Ok(
                            RewardInfo {
                                reward_rate: rate as u128,
                                last_update_time: current_time,
                                reward_duration_end: (current_time
                                    + self.reward_duration) as u64,
                                ..self
                            },
                        )
                    }
                }
            },
            Err(e) => Err(e),
        }
    }

    pub fn update_rate_after_funding(&mut self, current_time: u64, funding_amount: u64) -> (res:
        Result<(), PoolError>)
        ensures
            match res {
                Ok(()) => old(self).spec_update_rate_after_funding(current_time, funding_amount)
                    == Result::<RewardInfo, PoolError>::Ok(*final(self)),
                Err(e) => old(self).spec_update_rate_after_funding(current_time, funding_amount)
                    == Result::<RewardInfo, PoolError>::Err(e) && *final(self) == *old(self),
            },
    {
        let reward_duration_end = self.reward_duration_end;
        let total_amount: u64 = if current_time >= reward_duration_end {
            funding_amount
        } else {
            let remaining_seconds = reward_duration_end - current_time;
            proof {
                lemma_pow2_values();
            }
            let leftover = safe_mul_shr_cast(
                self.reward_rate,
                remaining_seconds as u128,
                REWARD_RATE_SCALE,
                Rounding::Down,
            )?;
            safe_add_u64(funding_amount, leftover)?
        };
        proof {
            lemma_pow2_values();
        }
        let rate = safe_shl_div_cast(
            total_amount as u128,
            self.reward_duration as u128,
            REWARD_RATE_SCALE,
            Rounding::Down,
        )?;
        let new_end = safe_add_u64(current_time, self.reward_duration)?;
        self.reward_rate = rate;
        self.last_update_time = current_time;
        self.reward_duration_end = new_end;
        Ok(())
    }

    /// Reward conservation with liquidity present: over one accrual window
    /// the value handed to liquidity providers, measured as the accumulator
    /// delta times the liquidity, equals `elapsed * reward_rate` scaled by
    /// `2^LIQUIDITY_SCALE`, up to a rounding remainder smaller than one
    /// unit of liquidity.  Nothing else about the slot changes but the
    /// update time.
    pub proof fn lemma_reward_accrual_conserves(self, liquidity_supply: u128, current_time: u64)
        requires
            self.spec_initialized(),
            liquidity_supply > 0,
        ensures
            match self.spec_update_rewards(liquidity_supply, current_time) {
                Ok(updated) => {
                    &&& self.spec_seconds_elapsed(current_time) is Ok
                    &&& ({
                        let elapsed = self.spec_seconds_elapsed(current_time)->Ok_0;
                        let delta = updated.reward_per_token_stored.v()
                            - self.reward_per_token_stored.v();
                        &&& delta * liquidity_supply <= elapsed * self.reward_rate * p128()
                        &&& elapsed * self.reward_rate * p128() < delta * liquidity_supply
                            + liquidity_supply
                        &&& updated.cumulative_seconds_with_empty_liquidity_reward
                            == self.cumulative_seconds_with_empty_liquidity_reward
                        &&& updated.reward_rate == self.reward_rate
                    })
                },
                Err(_) => true,
            },
    {
        match self.spec_update_rewards(liquidity_supply, current_time) {
            Ok(updated) => {
                let elapsed = self.spec_seconds_elapsed(current_time)->Ok_0;
                let total = elapsed * self.reward_rate;
                let scaled = total * p128();
                let delta = (scaled as nat) / (liquidity_supply as nat);
                crate::math::lemma_floor_div_bounds(scaled as nat, liquidity_supply as nat);
                assert(delta * liquidity_supply <= scaled
                    && scaled < delta * liquidity_supply + liquidity_supply);
            },
            Err(_) => {},
        }
    }

    /// Reward conservation with empty liquidity: the elapsed seconds are
    /// carried forward exactly, one for one, and the accumulator does not
    /// move.  The carried seconds convert into the ineligible reward the
    /// funder may later reclaim.
    pub proof fn lemma_reward_empty_liquidity_carry(self, current_time: u64)
        requires
            self.spec_initialized(),
        ensures
            match self.spec_update_rewards(0, current_time) {
                Ok(updated) => {
                    &&& self.spec_seconds_elapsed(current_time) is Ok
                    &&& updated.cumulative_seconds_with_empty_liquidity_reward
                        == self.cumulative_seconds_with_empty_liquidity_reward
                        + self.spec_seconds_elapsed(current_time)->Ok_0
                    &&& updated.reward_per_token_stored == self.reward_per_token_stored
                    &&& updated.reward_rate == self.reward_rate
                },
                Err(_) => true,
            },
    {
    }
}

/// All results of one swap computation.  Produced by `get_swap_result` and
/// folded into the pool by `apply_swap_result`.
#[derive(Clone, Copy, Debug, PartialEq, Eq, Structural)]
pub struct SwapResult {
    pub input_amount: u64,
    pub output_amount: u64,
    pub next_sqrt_price: u128,
    pub lp_fee: u64,
    pub protocol_fee: u64,
    pub partner_fee: u64,
    pub referral_fee: u64,
}

/// Curve-side result of a swap leg: the counter-amount and the new price.
#[derive(Clone, Copy, Debug, PartialEq, Eq, Structural)]
pub struct SwapAmount {
    pub output_amount: u64,
    pub next_sqrt_price: u128,
}

/// Token amounts corresponding to a liquidity change at the current price.
#[derive(Clone, Copy, Debug, PartialEq, Eq, Structural)]
pub struct ModifyLiquidityResult {
    pub token_a_amount: u64,
    pub token_b_amount: u64,
}

/// A liquidity pool for one trading pair: the central entity of the engine.
#[derive(Clone, Copy, Debug)]
pub struct Pool {
    /// Trade fee parameters and dynamic fee state.
    pub pool_fees: PoolFeesStruct,
    pub token_a_mint: Pubkey,
    pub token_b_mint: Pubkey,
    pub token_a_vault: Pubkey,
    pub token_b_vault: Pubkey,
    /// Vault allowed to buy before the activation point.
    pub whitelisted_vault: Pubkey,
    pub partner: Pubkey,
    /// Virtual constant-product liquidity, Q64.64.
    pub liquidity: u128,
    /// Unclaimed protocol fees per token.
    pub protocol_a_fee: u64,
    pub protocol_b_fee: u64,
    /// Unclaimed partner fees per token.
    pub partner_a_fee: u64,
    pub partner_b_fee: u64,
    /// Immutable price bounds, Q64.64.
    pub sqrt_min_price: u128,
    pub sqrt_max_price: u128,
    /// Current square-root price, Q64.64.
    pub sqrt_price: u128,
    /// Slot or timestamp before which the pool is gated.
    pub activation_point: u64,
    /// 0: by slot, 1: by timestamp.
    pub activation_type: u8,
    /// 0: enabled, 1: disabled.
    pub pool_status: u8,
    pub token_a_flag: u8,
    pub token_b_flag: u8,
    /// 0: fee on the output token, 1: fee always on token B.
    pub collect_fee_mode: u8,
    /// 0: permissionless, 1: customizable.
    pub pool_type: u8,
    /// Cumulative fee per unit of liquidity, shifted by `LIQUIDITY_SCALE`.
    pub fee_a_per_liquidity: U256,
    pub fee_b_per_liquidity: U256,
    pub permanent_lock_liquidity: u128,
    pub metrics: PoolMetrics,
    /// Reward campaign slots.
    pub reward_infos: [RewardInfo; NUM_REWARDS],
}

impl Pool {
    /// Structural well-formedness: valid fee parameters and an in-range,
    /// positive price.  Established at initialization and preserved by
    /// every operation.
    pub open spec fn spec_wf(self) -> bool {
        &&& self.pool_fees.spec_is_valid()
        &&& 0 < self.sqrt_min_price <= self.sqrt_price <= self.sqrt_max_price
    }

    #[allow(clippy::too_many_arguments)]
    pub fn initialize(
        &mut self,
        pool_fees: PoolFeesStruct,
        token_a_mint: Pubkey,
        token_b_mint: Pubkey,
        token_a_vault: Pubkey,
        token_b_vault: Pubkey,
        whitelisted_vault: Pubkey,
        partner: Pubkey,
        sqrt_min_price: u128,
        sqrt_max_price: u128,
        sqrt_price: u128,
        activation_point: u64,
        activation_type: u8,
        token_a_flag: u8,
        token_b_flag: u8,
        liquidity: u128,
        collect_fee_mode: u8,
        pool_type: u8,
    )
        ensures
            *final(self) == (Pool {
                pool_fees,
                token_a_mint,
                token_b_mint,
                token_a_vault,
                token_b_vault,
                whitelisted_vault,
                partner,
                sqrt_min_price,
                sqrt_max_price,
                sqrt_price,
                activation_point,
                activation_type,
                token_a_flag,
                token_b_flag,
                liquidity,
                collect_fee_mode,
                pool_type,
                ..*old(self)
            }),
    {
        self.pool_fees = pool_fees;
        self.token_a_mint = token_a_mint;
        self.token_b_mint = token_b_mint;
        self.token_a_vault = token_a_vault;
        self.token_b_vault = token_b_vault;
        self.whitelisted_vault = whitelisted_vault;
        self.partner = partner;
        self.sqrt_min_price = sqrt_min_price;
        self.sqrt_max_price = sqrt_max_price;
        self.activation_point = activation_point;
        self.activation_type = activation_type;
        self.token_a_flag = token_a_flag;
        self.token_b_flag = token_b_flag;
        self.liquidity = liquidity;
        self.sqrt_price = sqrt_price;
        self.collect_fee_mode = collect_fee_mode;
        self.pool_type = pool_type;
    }

    pub fn pool_reward_initialized(&self) -> (r: bool)
        ensures
            r == (self.reward_infos[0].spec_initialized()
                || self.reward_infos[1].spec_initialized()),
    {
        self.reward_infos[0].initialized() || self.reward_infos[1].initialized()
    }

    /// Cumulative token A fee per unit of liquidity.
    pub fn fee_a_per_liquidity(&self) -> (r: U256)
        ensures
            r == self.fee_a_per_liquidity,
    {
        self.fee_a_per_liquidity
    }

    /// Cumulative token B fee per unit of liquidity.
    pub fn fee_b_per_liquidity(&self) -> (r: U256)
        ensures
            r == self.fee_b_per_liquidity,
    {
        self.fee_b_per_liquidity
    }

    pub fn accumulate_permanent_locked_liquidity(&mut self, permanent_locked_liquidity: u128) -> (
        res: Result<(), PoolError>)
        ensures
            match res {
                Ok(()) => old(self).permanent_lock_liquidity + permanent_locked_liquidity
                    <= u128::MAX && *final(self) == (Pool {
                    permanent_lock_liquidity: (old(self).permanent_lock_liquidity
                        + permanent_locked_liquidity) as u128,
                    ..*old(self)
                }),
                Err(e) => e == PoolError::MathOverflow && old(self).permanent_lock_liquidity
                    + permanent_locked_liquidity > u128::MAX && *final(self) == *old(self),
            },
    {
        let updated = safe_add_u128(self.permanent_lock_liquidity, permanent_locked_liquidity)?;
        self.permanent_lock_liquidity = updated;
        Ok(())
    }

    /// Claim all accumulated protocol fees; the balances are zeroed and the
    /// claimed amounts returned.  Claiming zero is a no-op yielding zero.
    pub fn claim_protocol_fee(&mut self) -> (amounts: (u64, u64))
        ensures
            amounts.0 == old(self).protocol_a_fee,
            amounts.1 == old(self).protocol_b_fee,
            *final(self) == (Pool { protocol_a_fee: 0, protocol_b_fee: 0, ..*old(self) }),
    {
        let token_a_amount = self.protocol_a_fee;
        let token_b_amount = self.protocol_b_fee;
        self.protocol_a_fee = 0;
        self.protocol_b_fee = 0;
        (token_a_amount, token_b_amount)
    }

    /// Claim partner fees up to the requested maxima; balances are reduced
    /// by exactly the claimed amounts.
    pub fn claim_partner_fee(&mut self, max_amount_a: u64, max_amount_b: u64) -> (res: Result<
        (u64, u64),
        PoolError,
    >)
        ensures
            match res {
                Ok(amounts) => {
                    &&& amounts.0 == if old(self).partner_a_fee < max_amount_a {
                        old(self).partner_a_fee
                    } else {
                        max_amount_a
                    }
                    &&& amounts.1 == if old(self).partner_b_fee < max_amount_b {
                        old(self).partner_b_fee
                    } else {
                        max_amount_b
                    }
                    &&& *final(self) == (Pool {
                        partner_a_fee: (old(self).partner_a_fee - amounts.0) as u64,
                        partner_b_fee: (old(self).partner_b_fee - amounts.1) as u64,
                        ..*old(self)
                    })
                },
                Err(_) => false,
            },
    {
        let token_a_amount = if self.partner_a_fee < max_amount_a {
            self.partner_a_fee
        } else {
            max_amount_a
        };
        let token_b_amount = if self.partner_b_fee < max_amount_b {
            self.partner_b_fee
        } else {
            max_amount_b
        };
        let new_a = safe_sub_u64(self.partner_a_fee, token_a_amount)?;
        let new_b = safe_sub_u64(self.partner_b_fee, token_b_amount)?;
        self.partner_a_fee = new_a;
        self.partner_b_fee = new_b;
        Ok((token_a_amount, token_b_amount))
    }

    /// Accrue every initialized reward slot up to `current_time`.
    pub fn update_rewards(&mut self, current_time: u64) -> (res: Result<(), PoolError>)
        ensures
            match res {
                Ok(()) => {
                    &&& old(self).reward_infos[0].spec_update_rewards(
                        old(self).liquidity,
                        current_time,
                    ) == Result::<RewardInfo, PoolError>::Ok(final (self).reward_infos[0])
                    &&& old(self).reward_infos[1].spec_update_rewards(
                        old(self).liquidity,
                        current_time,
                    ) == Result::<RewardInfo, PoolError>::Ok(final (self).reward_infos[1])
                    &&& *final(self) == (Pool {
                        reward_infos: final (self).reward_infos,
                        ..*old(self)
                    })
                },
                Err(e) => {
                    &&& (old(self).reward_infos[0].spec_update_rewards(
                        old(self).liquidity,
                        current_time,
                    ) == Result::<RewardInfo, PoolError>::Err(e) || (old(
                        self,
                    ).reward_infos[0].spec_update_rewards(old(self).liquidity, current_time)
                        is Ok && old(self).reward_infos[1].spec_update_rewards(
                        old(self).liquidity,
                        current_time,
                    ) == Result::<RewardInfo, PoolError>::Err(e)))
                    &&& *final(self) == *old(self)
                },
            },
    {
        let mut reward_0 = self.reward_infos[0];
        let mut reward_1 = self.reward_infos[1];
        reward_0.update_rewards(self.liquidity, current_time)?;
        reward_1.update_rewards(self.liquidity, current_time)?;
        self.reward_infos = [reward_0, reward_1];
        Ok(())
    }

    /// Reward carried forward because liquidity was empty, reclaimable by
    /// the funder: `cumulative_empty_seconds * reward_rate`, scaled back
    /// down.  The carry-forward accumulator is zeroed.
    pub fn claim_ineligible_reward(&mut self, reward_index: usize) -> (res: Result<
        u64,
        PoolError,
    >)
        ensures
            match res {
                Ok(v) => {
                    &&& reward_index < NUM_REWARDS
                    &&& ({
                        let ri = old(self).reward_infos[reward_index as int];
                        let ineligible = ((
                        ri.cumulative_seconds_with_empty_liquidity_reward as nat
                            * ri.reward_rate) / (p64() as int)) as nat;
                        &&& v == ineligible
                        &&& *final(self) == (Pool {
                            reward_infos: final (self).reward_infos,
                            ..*old(self)
                        })
                        &&& final (self).reward_infos[reward_index as int] == (RewardInfo {
                            cumulative_seconds_with_empty_liquidity_reward: 0,
                            ..ri
                        })
                        &&& final (self).reward_infos[1 - reward_index as int] == old(
                            self,
                        ).reward_infos[1 - reward_index as int]
                    })
                },
                Err(e) => {
                    &&& *final(self) == *old(self)
                    &&& (reward_index >= NUM_REWARDS && e == PoolError::InvalidRewardIndex) || (
                    reward_index < NUM_REWARDS && e == PoolError::TypeCastFailed && (old(
                        self,
                    ).reward_infos[reward_index as int].cumulative_seconds_with_empty_liquidity_reward as nat
                        * old(self).reward_infos[reward_index as int].reward_rate) / (
                    p64() as int) > u64::MAX)
                },
            },
    {
        if reward_index >= NUM_REWARDS {
            return Err(PoolError::InvalidRewardIndex);
        }
        let mut reward_info = self.reward_infos[reward_index];
        proof {
            lemma_pow2_values();
            // the scaled-down product fits the 128-bit primitive
            assert((reward_info.cumulative_seconds_with_empty_liquidity_reward as nat)
                * (reward_info.reward_rate as nat) < p128() * p64()) by (nonlinear_arith)
                requires
                    (reward_info.cumulative_seconds_with_empty_liquidity_reward as nat) < p64(),
                    (reward_info.reward_rate as nat) < p128(),
            ;
            crate::math::lemma_floor_div_le(
                (reward_info.cumulative_seconds_with_empty_liquidity_reward as nat)
                    * (reward_info.reward_rate as nat),
                p64(),
                (p128() - 1) as nat,
            );
        }
        let ineligible_reward = safe_mul_shr_cast(
            reward_info.cumulative_seconds_with_empty_liquidity_reward as u128,
            reward_info.reward_rate,
            REWARD_RATE_SCALE,
            Rounding::Down,
        )?;
        reward_info.cumulative_seconds_with_empty_liquidity_reward = 0;
        if reward_index == 0 {
            self.reward_infos = [reward_info, self.reward_infos[1]];
        } else {
            self.reward_infos = [self.reward_infos[0], reward_info];
        }
        Ok(ineligible_reward)
    }

    /// Initialize one reward slot, validating the index, the duration
    /// bounds and that the slot is still free.
    pub fn initialize_reward(
        &mut self,
        reward_index: usize,
        mint: Pubkey,
        vault: Pubkey,
        funder: Pubkey,
        reward_duration: u64,
        reward_token_flag: u8,
    ) -> (res: Result<(), PoolError>)
        ensures
            match res {
                Ok(()) => {
                    &&& reward_index < NUM_REWARDS
                    &&& MIN_REWARD_DURATION <= reward_duration <= MAX_REWARD_DURATION
                    &&& !old(self).reward_infos[reward_index as int].spec_initialized()
                    &&& *final(self) == (Pool {
                        reward_infos: final (self).reward_infos,
                        ..*old(self)
                    })
                    &&& final (self).reward_infos[reward_index as int] == (RewardInfo {
                        initialized: 1,
                        mint,
                        vault,
                        funder,
                        reward_duration,
                        reward_token_flag,
                        ..old(self).reward_infos[reward_index as int]
                    })
                    &&& final (self).reward_infos[1 - reward_index as int] == old(
                        self,
                    ).reward_infos[1 - reward_index as int]
                },
                Err(e) => {
                    &&& *final(self) == *old(self)
                    &&& (reward_index >= NUM_REWARDS && e == PoolError::InvalidRewardIndex) || (
                    reward_index < NUM_REWARDS && !(MIN_REWARD_DURATION <= reward_duration
                        <= MAX_REWARD_DURATION) && e == PoolError::InvalidRewardDuration) || (
                    reward_index < NUM_REWARDS && MIN_REWARD_DURATION <= reward_duration
                        <= MAX_REWARD_DURATION && old(
                        self,
                    ).reward_infos[reward_index as int].spec_initialized() && e
                        == PoolError::RewardInitialized)
                },
            },
    {
        if reward_index >= NUM_REWARDS {
            return Err(PoolError::InvalidRewardIndex);
        }
        if reward_duration < MIN_REWARD_DURATION || reward_duration > MAX_REWARD_DURATION {
            return Err(PoolError::InvalidRewardDuration);
        }
        let mut reward_info = self.reward_infos[reward_index];
        if reward_info.initialized() {
            return Err(PoolError::RewardInitialized);
        }
        reward_info.init_reward(mint, vault, funder, reward_duration, reward_token_flag);
        if reward_index == 0 {
            self.reward_infos = [reward_info, self.reward_infos[1]];
        } else {
            self.reward_infos = [self.reward_infos[0], reward_info];
        }
        Ok(())
    }

    /// Fund one reward slot: accrue all slots up to now, optionally fold
    /// the carried-forward ineligible reward into the funding amount, and
    /// recompute the rate over a fresh window.  Returns the funding amount
    /// actually applied, including any reclaimed ineligible reward.
    /// Nothing is mutated when any step fails.
    pub fn fund_reward(
        &mut self,
        reward_index: usize,
        funding_amount: u64,
        carry_forward: bool,
        current_time: u64,
    ) -> (res: Result<u64, PoolError>)
        ensures
            match res {
                Ok(total) => {
                    &&& reward_index < NUM_REWARDS
                    &&& old(self).reward_infos[reward_index as int].spec_initialized()
                    &&& ({
                        let r0 = old(self).reward_infos[0].spec_update_rewards(
                            old(self).liquidity,
                            current_time,
                        );
                        let r1 = old(self).reward_infos[1].spec_update_rewards(
                            old(self).liquidity,
                            current_time,
                        );
                        &&& r0 is Ok
                        &&& r1 is Ok
                        &&& ({
                            let accrued = if reward_index == 0 {
                                r0->Ok_0
                            } else {
                                r1->Ok_0
                            };
                            let carried = if carry_forward {
                                ((accrued.cumulative_seconds_with_empty_liquidity_reward as nat
                                    * accrued.reward_rate) / (p64() as int)) as nat
                            } else {
                                0
                            };
                            &&& carried <= u64::MAX
                            &&& funding_amount + carried <= u64::MAX
                            &&& total == funding_amount + carried
                            &&& ({
                                let funded = RewardInfo {
                                    cumulative_seconds_with_empty_liquidity_reward: if
                                        carry_forward {
                                        0
                                    } else {
                                        accrued.cumulative_seconds_with_empty_liquidity_reward
                                    },
                                    ..accrued
                                };
                                &&& funded.spec_update_rate_after_funding(current_time, total)
                                    is Ok
                                &&& final (self).reward_infos[reward_index as int]
                                    == funded.spec_update_rate_after_funding(
                                    current_time,
                                    total,
                                )->Ok_0
                                &&& final (self).reward_infos[1 - reward_index as int] == (if
                                    reward_index == 0 {
                                    r1->Ok_0
                                } else {
                                    r0->Ok_0
                                })
                                &&& *final(self) == (Pool {
                                    reward_infos: final (self).reward_infos,
                                    ..*old(self)
                                })
                            })
                        })
                    })
                },
                Err(e) => {
                    &&& *final(self) == *old(self)
                    &&& (reward_index >= NUM_REWARDS ==> e == PoolError::InvalidRewardIndex)
                    &&& (reward_index < NUM_REWARDS && !old(
                        self,
                    ).reward_infos[reward_index as int].spec_initialized() ==> e
                        == PoolError::RewardUninitialized)
                },
            },
    {
        if reward_index >= NUM_REWARDS {
            return Err(PoolError::InvalidRewardIndex);
        }
        if !self.reward_infos[reward_index].initialized() {
            return Err(PoolError::RewardUninitialized);
        }
        let mut staged = *self;
        staged.update_rewards(current_time)?;
        let mut reward_info = staged.reward_infos[reward_index];
        let total_amount: u64 = if carry_forward {
            proof {
                lemma_pow2_values();
                assert((reward_info.cumulative_seconds_with_empty_liquidity_reward as nat)
                    * (reward_info.reward_rate as nat) < p128() * p64()) by (nonlinear_arith)
                    requires
                        (reward_info.cumulative_seconds_with_empty_liquidity_reward as nat)
                            < p64(),
                        (reward_info.reward_rate as nat) < p128(),
                ;
                crate::math::lemma_floor_div_le(
                    (reward_info.cumulative_seconds_with_empty_liquidity_reward as nat)
                        * (reward_info.reward_rate as nat),
                    p64(),
                    (p128() - 1) as nat,
                );
            }
            let ineligible = safe_mul_shr_cast(
                reward_info.cumulative_seconds_with_empty_liquidity_reward as u128,
                reward_info.reward_rate,
                REWARD_RATE_SCALE,
                Rounding::Down,
            )?;
            reward_info.cumulative_seconds_with_empty_liquidity_reward = 0;
            safe_add_u64(funding_amount, ineligible)?
        } else {
            funding_amount
        };
        reward_info.update_rate_after_funding(current_time, total_amount)?;
        if reward_index == 0 {
            staged.reward_infos = [reward_info, staged.reward_infos[1]];
        } else {
            staged.reward_infos = [staged.reward_infos[0], reward_info];
        }
        *self = staged;
        Ok(total_amount)
    }

    /// One A-to-B swap leg against the curve: the price falls; crossing the
    /// lower bound is a hard failure, never a clamp.
    pub open spec fn spec_swap_a_to_b(self, amount: nat, is_exact_out: bool) -> Result<
        (nat, nat),
        PoolError,
    > {
        match spec_next_sqrt_price(
            self.sqrt_price as nat,
            self.liquidity as nat,
            amount,
            true,
            is_exact_out,
        ) {
            Ok(next) => {
                if next < self.sqrt_min_price {
                    Err(PoolError::PriceRangeViolation)
                } else {
                    let out = if is_exact_out {
                        spec_delta_amount_a_u64(
                            next,
                            self.sqrt_price as nat,
                            self.liquidity as nat,
                            Rounding::Up,
                        )
                    } else {
                        spec_delta_amount_b_u64(
                            next,
                            self.sqrt_price as nat,
                            self.liquidity as nat,
                            Rounding::Down,
                        )
                    };
                    match out {
                        Ok(o) => Ok((o, next)),
                        Err(e) => Err(e),
                    }
                }
            },
            Err(e) => Err(e),
        }
    }

    /// One B-to-A swap leg: the price rises; crossing the upper bound is a
    /// hard failure.
    pub open spec fn spec_swap_b_to_a(self, amount: nat, is_exact_out: bool) -> Result<
        (nat, nat),
        PoolError,
    > {
        match spec_next_sqrt_price(
            self.sqrt_price as nat,
            self.liquidity as nat,
            amount,
            false,
            is_exact_out,
        ) {
            Ok(next) => {
                if next > self.sqrt_max_price {
                    Err(PoolError::PriceRangeViolation)
                } else {
                    let out = if is_exact_out {
                        spec_delta_amount_b_u64(
                            self.sqrt_price as nat,
                            next,
                            self.liquidity as nat,
                            Rounding::Up,
                        )
                    } else {
                        spec_delta_amount_a_u64(
                            self.sqrt_price as nat,
                            next,
                            self.liquidity as nat,
                            Rounding::Down,
                        )
                    };
                    match out {
                        Ok(o) => Ok((o, next)),
                        Err(e) => Err(e),
                    }
                }
            },
            Err(e) => Err(e),
        }
    }

    fn get_swap_result_from_a_to_b(&self, amount: u64, is_swap_exact_out: bool) -> (res: Result<
        SwapAmount,
        PoolError,
    >)
        requires
            self.spec_wf(),
            self.liquidity > 0,
        ensures
            match res {
                Ok(sa) => self.spec_swap_a_to_b(amount as nat, is_swap_exact_out)
                    == Result::<(nat, nat), PoolError>::Ok(
                    (sa.output_amount as nat, sa.next_sqrt_price as nat),
                ),
                Err(e) => self.spec_swap_a_to_b(amount as nat, is_swap_exact_out) == Result::<
                    (nat, nat),
                    PoolError,
                >::Err(e),
            },
    {
        let next_sqrt_price = get_next_sqrt_price(
            self.sqrt_price,
            self.liquidity,
            amount,
            true,
            is_swap_exact_out,
        )?;
        if next_sqrt_price < self.sqrt_min_price {
            return Err(PoolError::PriceRangeViolation);
        }
        let output_amount = if is_swap_exact_out {
            get_delta_amount_a_unsigned(next_sqrt_price, self.sqrt_price, self.liquidity,
                Rounding::Up)?
        } else {
            get_delta_amount_b_unsigned(next_sqrt_price, self.sqrt_price, self.liquidity,
                Rounding::Down)?
        };
        Ok(SwapAmount { output_amount, next_sqrt_price })
    }

    fn get_swap_result_from_b_to_a(&self, amount: u64, is_swap_exact_out: bool) -> (res: Result<
        SwapAmount,
        PoolError,
    >)
        requires
            self.spec_wf(),
            self.liquidity > 0,
        ensures
            match res {
                Ok(sa) => self.spec_swap_b_to_a(amount as nat, is_swap_exact_out)
                    == Result::<(nat, nat), PoolError>::Ok(
                    (sa.output_amount as nat, sa.next_sqrt_price as nat),
                ),
                Err(e) => self.spec_swap_b_to_a(amount as nat, is_swap_exact_out) == Result::<
                    (nat, nat),
                    PoolError,
                >::Err(e),
            },
    {
        let next_sqrt_price = get_next_sqrt_price(
            self.sqrt_price,
            self.liquidity,
            amount,
            false,
            is_swap_exact_out,
        )?;
        if next_sqrt_price > self.sqrt_max_price {
            return Err(PoolError::PriceRangeViolation);
        }
        let output_amount = if is_swap_exact_out {
            get_delta_amount_b_unsigned(self.sqrt_price, next_sqrt_price, self.liquidity,
                Rounding::Up)?
        } else {
            get_delta_amount_a_unsigned(self.sqrt_price, next_sqrt_price, self.liquidity,
                Rounding::Down)?
        };
        Ok(SwapAmount { output_amount, next_sqrt_price })
    }

    /// The complete, side-effect-free swap computation.
    ///
    /// Stage one applies the fee before the curve when the fee side calls
    /// for it, stage two invokes the curve for the new price and
    /// counter-amount, and stage three applies the complementary fee step.
    /// Exactly one fee application runs on every path.
    pub open spec fn spec_get_swap_result(
        self,
        amount: u64,
        fee_mode: FeeMode,
        trade_direction: TradeDirection,
        is_swap_exact_out: bool,
    ) -> Result<SwapResult, PoolError> {
        let fee_pre: Result<(nat, nat, nat, nat, nat), PoolError> = if (is_swap_exact_out
            && !fee_mode.fees_on_input) || (!is_swap_exact_out && fee_mode.fees_on_input) {
            self.pool_fees.spec_get_fee_on_amount(
                amount as nat,
                fee_mode.has_referral,
                is_swap_exact_out,
            )
        } else {
            Ok((amount as nat, 0, 0, 0, 0))
        };
        match fee_pre {
            Err(e) => Err(e),
            Ok(pre) => {
                let actual_amount = pre.0;
                let curve: Result<(nat, nat), PoolError> = match trade_direction {
                    TradeDirection::AtoB => self.spec_swap_a_to_b(
                        actual_amount,
                        is_swap_exact_out,
                    ),
                    TradeDirection::BtoA => self.spec_swap_b_to_a(
                        actual_amount,
                        is_swap_exact_out,
                    ),
                };
                match curve {
                    Err(e) => Err(e),
                    Ok(swapped) => {
                        let output_amount = swapped.0;
                        let next_sqrt_price = swapped.1;
                        let fee_post: Result<(nat, nat, nat, nat, nat), PoolError> = if (
                        is_swap_exact_out && fee_mode.fees_on_input) || (!is_swap_exact_out
                            && !fee_mode.fees_on_input) {
                            self.pool_fees.spec_get_fee_on_amount(
                                output_amount,
                                fee_mode.has_referral,
                                is_swap_exact_out,
                            )
                        } else {
                            Ok((output_amount, pre.1, pre.2, pre.3, pre.4))
                        };
                        match fee_post {
                            Err(e) => Err(e),
                            Ok(post) => {
                                let input_result = if is_swap_exact_out {
                                    post.0
                                } else {
                                    amount as nat
                                };
                                let output_result = if is_swap_exact_out {
                                    amount as nat
                                } else {
                                    post.0
                                };
                                Ok(
                                    SwapResult {
                                        input_amount: input_result as u64,
                                        output_amount: output_result as u64,
                                        next_sqrt_price: next_sqrt_price as u128,
                                        lp_fee: post.1 as u64,
                                        protocol_fee: post.2 as u64,
                                        partner_fee: post.3 as u64,
                                        referral_fee: post.4 as u64,
                                    },
                                )
                            },
                        }
                    },
                }
            },
        }
    }

    /// Pure swap computation: no pool state is mutated.  The result is
    /// fully determined by the pool state and the arguments.
    pub fn get_swap_result(
        &self,
        amount: u64,
        fee_mode: &FeeMode,
        trade_direction: TradeDirection,
        current_point: u64,
        is_swap_exact_out: bool,
    ) -> (res: Result<SwapResult, PoolError>)
        requires
            self.spec_wf(),
            self.liquidity > 0,
        ensures
            res == self.spec_get_swap_result(
                amount,
                *fee_mode,
                trade_direction,
                is_swap_exact_out,
            ),
    {
        let mut actual_protocol_fee: u64 = 0;
        let mut actual_lp_fee: u64 = 0;
        let mut actual_referral_fee: u64 = 0;
        let mut actual_partner_fee: u64 = 0;

        let actual_amount: u64 = if (is_swap_exact_out && !fee_mode.fees_on_input) || (
        !is_swap_exact_out && fee_mode.fees_on_input) {
            let FeeOnAmountResult { amount: amount_calculated_fee, lp_fee, protocol_fee,
                partner_fee, referral_fee } = self.pool_fees.get_fee_on_amount(
                amount,
                fee_mode.has_referral,
                is_swap_exact_out,
            )?;
            actual_protocol_fee = protocol_fee;
            actual_lp_fee = lp_fee;
            actual_referral_fee = referral_fee;
            actual_partner_fee = partner_fee;
            amount_calculated_fee
        } else {
            amount
        };

        let swap_amount = match trade_direction {
            TradeDirection::AtoB => self.get_swap_result_from_a_to_b(
                actual_amount,
                is_swap_exact_out,
            ),
            TradeDirection::BtoA => self.get_swap_result_from_b_to_a(
                actual_amount,
                is_swap_exact_out,
            ),
        }?;
        let output_amount = swap_amount.output_amount;
        let next_sqrt_price = swap_amount.next_sqrt_price;

        let actual_amount_out: u64 = if (is_swap_exact_out && fee_mode.fees_on_input) || (
        !is_swap_exact_out && !fee_mode.fees_on_input) {
            let FeeOnAmountResult { amount: amount_calculated_fee, lp_fee, protocol_fee,
                partner_fee, referral_fee } = self.pool_fees.get_fee_on_amount(
                output_amount,
                fee_mode.has_referral,
                is_swap_exact_out,
            )?;
            actual_protocol_fee = protocol_fee;
            actual_lp_fee = lp_fee;
            actual_referral_fee = referral_fee;
            actual_partner_fee = partner_fee;
            amount_calculated_fee
        } else {
            output_amount
        };

        let (input_amount_result, output_amount_result) = if is_swap_exact_out {
            (actual_amount_out, amount)
        } else {
            (amount, actual_amount_out)
        };

        Ok(
            SwapResult {
                input_amount: input_amount_result,
                output_amount: output_amount_result,
                next_sqrt_price,
                lp_fee: actual_lp_fee,
                protocol_fee: actual_protocol_fee,
                partner_fee: actual_partner_fee,
                referral_fee: actual_referral_fee,
            },
        )
    }

    /// The dynamic-fee state after the pre-swap reference update.
    pub open spec fn spec_update_pre_swap(self, current_timestamp: u64) -> Result<
        Pool,
        PoolError,
    > {
        if !self.pool_fees.dynamic_fee.spec_is_enabled() {
            Ok(self)
        } else {
            match self.pool_fees.dynamic_fee.spec_update_references(
                self.sqrt_price,
                current_timestamp,
            ) {
                Ok(df) => Ok(
                    Pool {
                        pool_fees: PoolFeesStruct { dynamic_fee: df, ..self.pool_fees },
                        ..self
                    },
                ),
                Err(e) => Err(e),
            }
        }
    }

    /// Update the dynamic-fee reference window before a swap.
    pub fn update_pre_swap(&mut self, current_timestamp: u64) -> (res: Result<(), PoolError>)
        ensures
            match res {
                Ok(()) => old(self).spec_update_pre_swap(current_timestamp) == Result::<
                    Pool,
                    PoolError,
                >::Ok(*final(self)),
                Err(e) => old(self).spec_update_pre_swap(current_timestamp) == Result::<
                    Pool,
                    PoolError,
                >::Err(e) && *final(self) == *old(self),
            },
    {
        if self.pool_fees.dynamic_fee.is_dynamic_fee_enable() {
            let mut dynamic_fee = self.pool_fees.dynamic_fee;
            dynamic_fee.update_references(self.sqrt_price, current_timestamp)?;
            self.pool_fees.dynamic_fee = dynamic_fee;
        }
        Ok(())
    }

    /// The dynamic-fee state after the post-swap volatility update: the
    /// accumulator absorbs the crossed bins, and the reference timestamp is
    /// reset only when the price actually crossed a bin, to avoid counting
    /// micro-moves.
    pub open spec fn spec_update_post_swap(self, old_sqrt_price: u128, current_timestamp: u64)
        -> Result<Pool, PoolError> {
        if !self.pool_fees.dynamic_fee.spec_is_enabled() {
            Ok(self)
        } else {
            match self.pool_fees.dynamic_fee.spec_update_volatility_accumulator(
                self.sqrt_price,
            ) {
                Err(e) => Err(e),
                Ok(df1) => {
                    match DynamicFeeStruct::spec_delta_bin_id(
                        df1.bin_step_u128 as nat,
                        old_sqrt_price as nat,
                        self.sqrt_price as nat,
                    ) {
                        Err(e) => Err(e),
                        Ok(delta) => {
                            let df2 = if delta > 0 {
                                DynamicFeeStruct {
                                    last_update_timestamp: current_timestamp,
                                    ..df1
                                }
                            } else {
                                df1
                            };
                            Ok(
                                Pool {
                                    pool_fees: PoolFeesStruct {
                                        dynamic_fee: df2,
                                        ..self.pool_fees
                                    },
                                    ..self
                                },
                            )
                        },
                    }
                },
            }
        }
    }

    /// Update the dynamic-fee volatility state after a swap.
    pub fn update_post_swap(&mut self, old_sqrt_price: u128, current_timestamp: u64) -> (res:
        Result<(), PoolError>)
        ensures
            match res {
                Ok(()) => old(self).spec_update_post_swap(old_sqrt_price, current_timestamp)
                    == Result::<Pool, PoolError>::Ok(*final(self)),
                Err(e) => old(self).spec_update_post_swap(old_sqrt_price, current_timestamp)
                    == Result::<Pool, PoolError>::Err(e) && *final(self) == *old(self),
            },
    {
        if self.pool_fees.dynamic_fee.is_dynamic_fee_enable() {
            let mut dynamic_fee = self.pool_fees.dynamic_fee;
            dynamic_fee.update_volatility_accumulator(self.sqrt_price)?;
            let delta_price = DynamicFeeStruct::get_delta_bin_id(
                dynamic_fee.bin_step_u128,
                old_sqrt_price,
                self.sqrt_price,
            )?;
            if delta_price > 0 {
                dynamic_fee.last_update_timestamp = current_timestamp;
            }
            self.pool_fees.dynamic_fee = dynamic_fee;
        }
        Ok(())
    }

    /// The pool after committing a swap result: the new price, the fee
    /// balances and per-liquidity accumulator of the fee-carrying token,
    /// the lifetime metrics, and the post-swap dynamic-fee state.
    pub open spec fn spec_apply_swap_result(
        self,
        swap_result: SwapResult,
        fee_mode: FeeMode,
        current_timestamp: u64,
    ) -> Result<Pool, PoolError> {
        let old_sqrt_price = self.sqrt_price;
        if self.liquidity == 0 {
            Err(PoolError::MathOverflow)
        } else {
            let fee_per_token = (((swap_result.lp_fee as nat * p128()) as int) / (
            self.liquidity as int)) as nat;
            if fee_mode.fees_on_token_a {
                if self.partner_a_fee + swap_result.partner_fee > u64::MAX {
                    Err(PoolError::MathOverflow)
                } else if self.protocol_a_fee + swap_result.protocol_fee > u64::MAX {
                    Err(PoolError::MathOverflow)
                } else if self.fee_a_per_liquidity.v() + fee_per_token >= p256() {
                    Err(PoolError::MathOverflow)
                } else {
                    match self.metrics.spec_accumulate_fee(
                        swap_result.lp_fee,
                        swap_result.protocol_fee,
                        swap_result.partner_fee,
                        true,
                    ) {
                        Err(e) => Err(e),
                        Ok(metrics) => Pool {
                            sqrt_price: swap_result.next_sqrt_price,
                            partner_a_fee: (self.partner_a_fee
                                + swap_result.partner_fee) as u64,
                            protocol_a_fee: (self.protocol_a_fee
                                + swap_result.protocol_fee) as u64,
                            fee_a_per_liquidity: U256::of_nat(
                                self.fee_a_per_liquidity.v() + fee_per_token,
                            ),
                            metrics,
                            ..self
                        }.spec_update_post_swap(old_sqrt_price, current_timestamp),
                    }
                }
            } else {
                if self.partner_b_fee + swap_result.partner_fee > u64::MAX {
                    Err(PoolError::MathOverflow)
                } else if self.protocol_b_fee + swap_result.protocol_fee > u64::MAX {
                    Err(PoolError::MathOverflow)
                } else if self.fee_b_per_liquidity.v() + fee_per_token >= p256() {
                    Err(PoolError::MathOverflow)
                } else {
                    match self.metrics.spec_accumulate_fee(
                        swap_result.lp_fee,
                        swap_result.protocol_fee,
                        swap_result.partner_fee,
                        false,
                    ) {
                        Err(e) => Err(e),
                        Ok(metrics) => Pool {
                            sqrt_price: swap_result.next_sqrt_price,
                            partner_b_fee: (self.partner_b_fee
                                + swap_result.partner_fee) as u64,
                            protocol_b_fee: (self.protocol_b_fee
                                + swap_result.protocol_fee) as u64,
                            fee_b_per_liquidity: U256::of_nat(
                                self.fee_b_per_liquidity.v() + fee_per_token,
                            ),
                            metrics,
                            ..self
                        }.spec_update_post_swap(old_sqrt_price, current_timestamp),
                    }
                }
            }
        }
    }

    /// Commit a swap result.  Nothing is mutated when any step fails.
    pub fn apply_swap_result(
        &mut self,
        swap_result: &SwapResult,
        fee_mode: &FeeMode,
        current_timestamp: u64,
    ) -> (res: Result<(), PoolError>)
        ensures
            match res {
                Ok(()) => old(self).spec_apply_swap_result(
                    *swap_result,
                    *fee_mode,
                    current_timestamp,
                ) == Result::<Pool, PoolError>::Ok(*final(self)),
                Err(e) => old(self).spec_apply_swap_result(
                    *swap_result,
                    *fee_mode,
                    current_timestamp,
                ) == Result::<Pool, PoolError>::Err(e) && *final(self) == *old(self),
            },
    {
        let old_sqrt_price = self.sqrt_price;
        proof {
            lemma_pow2_values();
        }
        let fee_per_token_stored = match shl_div_256(
            swap_result.lp_fee as u128,
            self.liquidity,
            LIQUIDITY_SCALE,
        ) {
            Some(v) => v,
            None => {
                proof {
                    if self.liquidity > 0 {
                        assert((swap_result.lp_fee as nat) * p128() < p256())
                            by (nonlinear_arith)
                            requires
                                (swap_result.lp_fee as nat) < p64(),
                                p256() == p128() * p128(),
                                p64() <= p128(),
                        ;
                    }
                }
                return Err(PoolError::MathOverflow);
            },
        };
        let mut staged = *self;
        if fee_mode.fees_on_token_a {
            let partner = safe_add_u64(staged.partner_a_fee, swap_result.partner_fee)?;
            let protocol = safe_add_u64(staged.protocol_a_fee, swap_result.protocol_fee)?;
            let fee_acc = match staged.fee_a_per_liquidity.checked_add(fee_per_token_stored) {
                Some(v) => v,
                None => {
                    return Err(PoolError::MathOverflow);
                },
            };
            let mut metrics = staged.metrics;
            metrics.accumulate_fee(
                swap_result.lp_fee,
                swap_result.protocol_fee,
                swap_result.partner_fee,
                true,
            )?;
            proof {
                fee_acc.lemma_of_nat_roundtrip();
            }
            staged.partner_a_fee = partner;
            staged.protocol_a_fee = protocol;
            staged.fee_a_per_liquidity = fee_acc;
            staged.metrics = metrics;
        } else {
            let partner = safe_add_u64(staged.partner_b_fee, swap_result.partner_fee)?;
            let protocol = safe_add_u64(staged.protocol_b_fee, swap_result.protocol_fee)?;
            let fee_acc = match staged.fee_b_per_liquidity.checked_add(fee_per_token_stored) {
                Some(v) => v,
                None => {
                    return Err(PoolError::MathOverflow);
                },
            };
            let mut metrics = staged.metrics;
            metrics.accumulate_fee(
                swap_result.lp_fee,
                swap_result.protocol_fee,
                swap_result.partner_fee,
                false,
            )?;
            proof {
                fee_acc.lemma_of_nat_roundtrip();
            }
            staged.partner_b_fee = partner;
            staged.protocol_b_fee = protocol;
            staged.fee_b_per_liquidity = fee_acc;
            staged.metrics = metrics;
        }
        staged.sqrt_price = swap_result.next_sqrt_price;
        staged.update_post_swap(old_sqrt_price, current_timestamp)?;
        *self = staged;
        Ok(())
    }

    /// Token amounts for a liquidity change at the current price, evaluated
    /// against the pool's full price range.  Rounds up for deposits and
    /// down for withdrawals, chosen by the caller.
    pub open spec fn spec_get_amounts_for_modify_liquidity(self, liquidity_delta: u128, round:
        Rounding) -> Result<(nat, nat), PoolError> {
        match spec_delta_amount_a_u64(
            self.sqrt_price as nat,
            self.sqrt_max_price as nat,
            liquidity_delta as nat,
            round,
        ) {
            Err(e) => Err(e),
            Ok(a) => match spec_delta_amount_b_u64(
                self.sqrt_min_price as nat,
                self.sqrt_price as nat,
                liquidity_delta as nat,
                round,
            ) {
                Err(e) => Err(e),
                Ok(b) => Ok((a, b)),
            },
        }
    }

    pub fn get_amounts_for_modify_liquidity(&self, liquidity_delta: u128, round: Rounding) -> (
        res: Result<ModifyLiquidityResult, PoolError>)
        requires
            self.spec_wf(),
        ensures
            match res {
                Ok(r) => self.spec_get_amounts_for_modify_liquidity(liquidity_delta, round)
                    == Result::<(nat, nat), PoolError>::Ok(
                    (r.token_a_amount as nat, r.token_b_amount as nat),
                ),
                Err(e) => self.spec_get_amounts_for_modify_liquidity(liquidity_delta, round)
                    == Result::<(nat, nat), PoolError>::Err(e),
            },
    {
        let token_a_amount = get_delta_amount_a_unsigned(
            self.sqrt_price,
            self.sqrt_max_price,
            liquidity_delta,
            round,
        )?;
        let token_b_amount = get_delta_amount_b_unsigned(
            self.sqrt_min_price,
            self.sqrt_price,
            liquidity_delta,
            round,
        )?;
        Ok(ModifyLiquidityResult { token_a_amount, token_b_amount })
    }

    /// Credit the position's pending fees, then add liquidity to both the
    /// position and the pool.  Nothing is mutated when any step fails.
    pub fn apply_add_liquidity(
        &mut self,
        position: &mut crate::position::Position,
        liquidity_delta: u128,
    ) -> (res: Result<(), PoolError>)
        ensures
            match res {
                Ok(()) => {
                    &&& ({
                        let synced = old(position).spec_update_fee(
                            old(self).fee_a_per_liquidity,
                            old(self).fee_b_per_liquidity,
                        );
                        &&& synced is Ok
                        &&& synced->Ok_0.unlocked_liquidity + liquidity_delta <= u128::MAX
                        &&& *final(position) == (crate::position::Position {
                            unlocked_liquidity: (synced->Ok_0.unlocked_liquidity
                                + liquidity_delta) as u128,
                            ..synced->Ok_0
                        })
                    })
                    &&& old(self).liquidity + liquidity_delta <= u128::MAX
                    &&& *final(self) == (Pool {
                        liquidity: (old(self).liquidity + liquidity_delta) as u128,
                        ..*old(self)
                    })
                },
                Err(_) => *final(self) == *old(self) && *final(position) == *old(position),
            },
    {
        let mut staged = *position;
        staged.update_fee(self.fee_a_per_liquidity, self.fee_b_per_liquidity)?;
        staged.add_liquidity(liquidity_delta)?;
        let new_liquidity = safe_add_u128(self.liquidity, liquidity_delta)?;
        *position = staged;
        self.liquidity = new_liquidity;
        Ok(())
    }

    /// Credit the position's pending fees, then remove liquidity from both
    /// the position and the pool.  Nothing is mutated when any step fails.
    pub fn apply_remove_liquidity(
        &mut self,
        position: &mut crate::position::Position,
        liquidity_delta: u128,
    ) -> (res: Result<(), PoolError>)
        ensures
            match res {
                Ok(()) => {
                    &&& ({
                        let synced = old(position).spec_update_fee(
                            old(self).fee_a_per_liquidity,
                            old(self).fee_b_per_liquidity,
                        );
                        &&& synced is Ok
                        &&& liquidity_delta <= synced->Ok_0.unlocked_liquidity
                        &&& *final(position) == (crate::position::Position {
                            unlocked_liquidity: (synced->Ok_0.unlocked_liquidity
                                - liquidity_delta) as u128,
                            ..synced->Ok_0
                        })
                    })
                    &&& liquidity_delta <= old(self).liquidity
                    &&& *final(self) == (Pool {
                        liquidity: (old(self).liquidity - liquidity_delta) as u128,
                        ..*old(self)
                    })
                },
                Err(_) => *final(self) == *old(self) && *final(position) == *old(position),
            },
    {
        let mut staged = *position;
        staged.update_fee(self.fee_a_per_liquidity, self.fee_b_per_liquidity)?;
        staged.remove_unlocked_liquidity(liquidity_delta)?;
        let new_liquidity = safe_sub_u128(self.liquidity, liquidity_delta)?;
        *position = staged;
        self.liquidity = new_liquidity;
        Ok(())
    }

    /// Price monotonicity: a successful A-to-B leg never raises the price
    /// and stays at or above the lower bound; a successful B-to-A leg never
    /// lowers it and stays at or below the upper bound.  A price beyond a
    /// bound is rejected with `PriceRangeViolation`, never clamped.
    pub proof fn lemma_price_monotonic(self, amount: nat, is_exact_out: bool)
        requires
            self.spec_wf(),
            self.liquidity > 0,
        ensures
            match self.spec_swap_a_to_b(amount, is_exact_out) {
                Ok(r) => self.sqrt_min_price <= r.1 <= self.sqrt_price,
                Err(_) => true,
            },
            match self.spec_swap_b_to_a(amount, is_exact_out) {
                Ok(r) => self.sqrt_price <= r.1 <= self.sqrt_max_price,
                Err(_) => true,
            },
    {
        let p = self.sqrt_price as nat;
        let l = self.liquidity as nat;
        if !is_exact_out {
            // A for B: ceil(l*p / (l + amount*p)) <= p
            let d = l + amount * p;
            assert(l * p <= p * d && d >= 1) by (nonlinear_arith)
                requires
                    p >= 1,
                    l >= 1,
                    d == l + amount * p,
            ;
            crate::math::lemma_ceil_div_le(l * p, d, p);
        } else {
            // B for A with a fixed A output: ceil(l*p / (l - amount*p)) >= p
            if amount * p < l {
                let d = (l - amount * p) as nat;
                assert(l * p >= p * d && d >= 1) by (nonlinear_arith)
                    requires
                        p >= 1,
                        d == l - amount * p,
                        amount * p < l,
                ;
                crate::math::lemma_ceil_div_bounds(l * p, d);
                assert(ceil_div(l * p, d) >= p) by (nonlinear_arith)
                    requires
                        ceil_div(l * p, d) * d >= l * p,
                        l * p >= p * d,
                        d >= 1,
                ;
            }
        }
    }

    /// Committing a swap never moves the cumulative fee accumulators or
    /// the fee balances backwards: the per-liquidity accumulators are
    /// monotonically non-decreasing and the protocol and partner balances
    /// only grow here (they shrink only through the claim operations,
    /// which reduce them by exactly the claimed amounts).
    pub proof fn lemma_fee_accounting_monotonic(
        self,
        swap_result: SwapResult,
        fee_mode: FeeMode,
        current_timestamp: u64,
    )
        ensures
            match self.spec_apply_swap_result(swap_result, fee_mode, current_timestamp) {
                Ok(p2) => {
                    &&& p2.fee_a_per_liquidity.v() >= self.fee_a_per_liquidity.v()
                    &&& p2.fee_b_per_liquidity.v() >= self.fee_b_per_liquidity.v()
                    &&& p2.protocol_a_fee >= self.protocol_a_fee
                    &&& p2.protocol_b_fee >= self.protocol_b_fee
                    &&& p2.partner_a_fee >= self.partner_a_fee
                    &&& p2.partner_b_fee >= self.partner_b_fee
                },
                Err(_) => true,
            },
    {
        match self.spec_apply_swap_result(swap_result, fee_mode, current_timestamp) {
            Ok(p2) => {
                let fee_per_token = (((swap_result.lp_fee as nat * p128()) as int) / (
                self.liquidity as int)) as nat;
                if fee_mode.fees_on_token_a {
                    U256::lemma_of_nat_value(self.fee_a_per_liquidity.v() + fee_per_token);
                } else {
                    U256::lemma_of_nat_value(self.fee_b_per_liquidity.v() + fee_per_token);
                }
            },
            Err(_) => {},
        }
    }

    /// A reward slot's lifecycle invariants: accrual and funding never
    /// revert the `initialized` flag, and accrual never moves the last
    /// update time past the end of the funding window.
    pub proof fn lemma_reward_slot_invariants(ri: RewardInfo, liquidity: u128, current_time: u64,
        funding_amount: u64)
        ensures
            match ri.spec_update_rewards(liquidity, current_time) {
                Ok(updated) => updated.initialized == ri.initialized && (ri.spec_initialized()
                    ==> updated.last_update_time <= updated.reward_duration_end),
                Err(_) => true,
            },
            match ri.spec_update_rate_after_funding(current_time, funding_amount) {
                Ok(funded) => funded.initialized == ri.initialized
                    && funded.last_update_time <= funded.reward_duration_end,
                Err(_) => true,
            },
    {
    }

    /// No value creation on a round trip, at the level of whole swaps: on
    /// a pool without fees, swapping `amount_in` of token A for token B and
    /// then swapping the whole proceeds back through the updated pool
    /// returns at most `amount_in`, and the price never recovers past its
    /// starting point.  With nonzero fees the proceeds only shrink
    /// further.
    pub proof fn lemma_swap_round_trip_no_gain(
        self,
        amount_in: u64,
        fee_mode_in: FeeMode,
        fee_mode_back: FeeMode,
        first: SwapResult,
        second: SwapResult,
    )
        requires
            self.spec_wf(),
            self.liquidity > 0,
            self.pool_fees.trade_fee_numerator == 0,
            !self.pool_fees.dynamic_fee.spec_is_enabled(),
            self.spec_get_swap_result(amount_in, fee_mode_in, TradeDirection::AtoB, false)
                == Result::<SwapResult, PoolError>::Ok(first),
            (Pool { sqrt_price: first.next_sqrt_price, ..self }).spec_get_swap_result(
                first.output_amount,
                fee_mode_back,
                TradeDirection::BtoA,
                false,
            ) == Result::<SwapResult, PoolError>::Ok(second),
        ensures
            second.output_amount <= amount_in,
            second.next_sqrt_price <= self.sqrt_price,
    {
        let p = self.sqrt_price as nat;
        let l = self.liquidity as nat;
        let a = amount_in as nat;
        // both fee applications are the identity
        crate::fee::lemma_zero_fee_identity(self.pool_fees, a, fee_mode_in.has_referral);
        // the first leg is the pure curve step
        let p1 = ceil_div(l * p, l + a * p);
        assert(l * p <= p * (l + a * p) && l + a * p >= 1) by (nonlinear_arith)
            requires
                p >= 1,
                l >= 1,
        ;
        crate::math::lemma_ceil_div_le(l * p, (l + a * p) as nat, p);
        let out_b = delta_amount_b_spec(p1, p, l, Rounding::Down);
        assert(self.spec_swap_a_to_b(a, false) == Result::<(nat, nat), PoolError>::Ok(
            (first.output_amount as nat, first.next_sqrt_price as nat),
        ));
        assert(first.next_sqrt_price as nat == p1 && first.output_amount as nat == out_b);
        // the reverse leg through the updated pool
        let pool2 = Pool { sqrt_price: first.next_sqrt_price, ..self };
        crate::fee::lemma_zero_fee_identity(
            self.pool_fees,
            first.output_amount as nat,
            fee_mode_back.has_referral,
        );
        let p2 = p1 + (out_b * p128()) / l;
        let out_a = delta_amount_a_spec(p1, p2, l, Rounding::Down);
        crate::curve::lemma_round_trip_no_gain(p, l, a);
        assert(p2 <= p && out_a <= a);
        assert(pool2.spec_swap_b_to_a(out_b, false) == Result::<(nat, nat), PoolError>::Ok(
            (second.output_amount as nat, second.next_sqrt_price as nat),
        ));
        assert(second.output_amount as nat == out_a && second.next_sqrt_price as nat == p2);
    }

    /// The pure swap computation is deterministic: two results computed
    /// from identical pool state and identical arguments are identical.
    /// The read-only path hides no state.
    pub proof fn lemma_get_swap_result_deterministic(
        self,
        amount: u64,
        fee_mode: FeeMode,
        trade_direction: TradeDirection,
        is_swap_exact_out: bool,
        first: Result<SwapResult, PoolError>,
        second: Result<SwapResult, PoolError>,
    )
        requires
            first == self.spec_get_swap_result(amount, fee_mode, trade_direction,
            is_swap_exact_out),
            second == self.spec_get_swap_result(amount, fee_mode, trade_direction,
            is_swap_exact_out),
        ensures
            first == second,
    {
    }

    /// The largest input the pool can absorb in the given direction before
    /// the price leaves its range, saturated at the 64-bit amount limit.
    pub open spec fn spec_max_amount_in(self, trade_direction: TradeDirection) -> nat {
        let d = match trade_direction {
            TradeDirection::AtoB => delta_amount_a_spec(
                self.sqrt_min_price as nat,
                self.sqrt_price as nat,
                self.liquidity as nat,
                Rounding::Down,
            ),
            TradeDirection::BtoA => delta_amount_a_spec(
                self.sqrt_price as nat,
                self.sqrt_max_price as nat,
                self.liquidity as nat,
                Rounding::Down,
            ),
        };
        if d > u64::MAX {
            u64::MAX as nat
        } else {
            d
        }
    }

    pub fn get_max_amount_in(&self, trade_direction: TradeDirection) -> (res: Result<
        u64,
        PoolError,
    >)
        requires
            self.spec_wf(),
        ensures
            match res {
                Ok(v) => v == self.spec_max_amount_in(trade_direction),
                Err(_) => false,
            },
    {
        let amount = match trade_direction {
            TradeDirection::AtoB => get_delta_amount_a_unsigned_unchecked(
                self.sqrt_min_price,
                self.sqrt_price,
                self.liquidity,
                Rounding::Down,
            )?,
            TradeDirection::BtoA => get_delta_amount_a_unsigned_unchecked(
                self.sqrt_price,
                self.sqrt_max_price,
                self.liquidity,
                Rounding::Down,
            )?,
        };
        match amount.to_u64() {
            Some(v) => Ok(v),
            None => Ok(u64::MAX),
        }
    }
}

} // verus!
