//! A liquidity provider's stake in one pool: owned liquidity, fee and
//! reward checkpoints against the pool's cumulative accumulators, and
//! unclaimed balances.

use vstd::prelude::*;
use crate::constants::NUM_REWARDS;
use crate::pool::Pool;
use crate::safe_math::{safe_add_u64, safe_add_u128, safe_sub_u128};
use crate::u256::{U256, p128, p256};
use crate::PoolError;

verus! {

/// Per-reward-slot state of a position.
#[derive(Clone, Copy, Debug, PartialEq, Eq, Structural)]
pub struct UserRewardInfo {
    /// The pool's cumulative reward-per-liquidity at the last sync.
    pub reward_per_token_checkpoint: U256,
    /// Reward earned and not yet claimed.
    pub reward_pendings: u64,
}

/// One liquidity-provider stake in a pool.
#[derive(Clone, Copy, Debug)]
pub struct Position {
    /// Liquidity that can still be removed.
    pub unlocked_liquidity: u128,
    /// Liquidity locked forever; it keeps earning fees and rewards.
    pub permanent_locked_liquidity: u128,
    /// The pool's cumulative fee-per-liquidity at the last sync.
    pub fee_a_per_token_checkpoint: U256,
    pub fee_b_per_token_checkpoint: U256,
    /// Fees earned and not yet claimed.
    pub fee_a_pending: u64,
    pub fee_b_pending: u64,
    pub reward_infos: [UserRewardInfo; NUM_REWARDS],
}

/// What a position earned since its checkpoint:
/// `((accumulator − checkpoint) * liquidity) >> LIQUIDITY_SCALE`,
/// as a token amount.
pub open spec fn spec_pending_delta(checkpoint: U256, accumulator: U256, liquidity: nat) ->
    Result<nat, PoolError> {
    if accumulator.v() < checkpoint.v() {
        Err(PoolError::MathOverflow)
    } else {
        let prod = (accumulator.v() - checkpoint.v()) * liquidity;
        if prod >= p256() {
            Err(PoolError::MathOverflow)
        } else {
            let amount = (prod as nat) / p128();
            if amount > u64::MAX {
                Err(PoolError::TypeCastFailed)
            } else {
                Ok(amount as nat)
            }
        }
    }
}

/// Earned amount since the checkpoint, scaled back to a token amount.
fn pending_delta(checkpoint: U256, accumulator: U256, liquidity: u128) -> (res: Result<
    u64,
    PoolError,
>)
    ensures
        match res {
            Ok(v) => spec_pending_delta(checkpoint, accumulator, liquidity as nat)
                == Result::<nat, PoolError>::Ok(v as nat),
            Err(e) => spec_pending_delta(checkpoint, accumulator, liquidity as nat)
                == Result::<nat, PoolError>::Err(e),
        },
{
    let diff = match accumulator.checked_sub(checkpoint) {
        Some(d) => d,
        None => {
            return Err(PoolError::MathOverflow);
        },
    };
    let prod = match diff.checked_mul_u128(liquidity) {
        Some(p) => p,
        None => {
            return Err(PoolError::MathOverflow);
        },
    };
    proof {
        prod.lemma_v_bound();
    }
    let wide = prod.shr128();
    if wide > u64::MAX as u128 {
        Err(PoolError::TypeCastFailed)
    } else {
        Ok(wide as u64)
    }
}

impl Position {
    /// All liquidity owned by the position.
    pub open spec fn spec_total_liquidity(self) -> nat {
        self.unlocked_liquidity as nat + self.permanent_locked_liquidity as nat
    }

    pub fn get_total_liquidity(&self) -> (res: Result<u128, PoolError>)
        ensures
            match res {
                Ok(v) => v == self.spec_total_liquidity(),
                Err(e) => e == PoolError::MathOverflow && self.spec_total_liquidity()
                    > u128::MAX,
            },
    {
        safe_add_u128(self.unlocked_liquidity, self.permanent_locked_liquidity)
    }

    /// The position after syncing its fee checkpoints to the pool's
    /// accumulators, crediting the fees earned since the last sync.
    pub open spec fn spec_update_fee(
        self,
        fee_a_per_liquidity: U256,
        fee_b_per_liquidity: U256,
    ) -> Result<Position, PoolError> {
        if self.spec_total_liquidity() > u128::MAX {
            Err(PoolError::MathOverflow)
        } else {
            match spec_pending_delta(
                self.fee_a_per_token_checkpoint,
                fee_a_per_liquidity,
                self.spec_total_liquidity(),
            ) {
                Err(e) => Err(e),
                Ok(delta_a) => {
                    if self.fee_a_pending + delta_a > u64::MAX {
                        Err(PoolError::MathOverflow)
                    } else {
                        match spec_pending_delta(
                            self.fee_b_per_token_checkpoint,
                            fee_b_per_liquidity,
                            self.spec_total_liquidity(),
                        ) {
                            Err(e) => Err(e),
                            Ok(delta_b) => {
                                if self.fee_b_pending + delta_b > u64::MAX {
                                    Err(PoolError::MathOverflow)
                                } else {
                                    Ok(
                                        Position {
                                            fee_a_pending: (self.fee_a_pending
                                                + delta_a) as u64,
                                            fee_b_pending: (self.fee_b_pending
                                                + delta_b) as u64,
                                            fee_a_per_token_checkpoint: fee_a_per_liquidity,
                                            fee_b_per_token_checkpoint: fee_b_per_liquidity,
                                            ..self
                                        },
                                    )
                                }
                            },
                        }
                    }
                },
            }
        }
    }

    /// Credit the fees earned since the last sync and move the checkpoints
    /// forward.  Nothing is mutated when any step fails.
    pub fn update_fee(&mut self, fee_a_per_liquidity: U256, fee_b_per_liquidity: U256) -> (res:
        Result<(), PoolError>)
        ensures
            match res {
                Ok(()) => old(self).spec_update_fee(fee_a_per_liquidity, fee_b_per_liquidity)
                    == Result::<Position, PoolError>::Ok(*final(self)),
                Err(e) => old(self).spec_update_fee(fee_a_per_liquidity, fee_b_per_liquidity)
                    == Result::<Position, PoolError>::Err(e) && *final(self) == *old(self),
            },
    {
        let total_liquidity = self.get_total_liquidity()?;
        let delta_a = pending_delta(
            self.fee_a_per_token_checkpoint,
            fee_a_per_liquidity,
            total_liquidity,
        )?;
        let pending_a = safe_add_u64(self.fee_a_pending, delta_a)?;
        let delta_b = pending_delta(
            self.fee_b_per_token_checkpoint,
            fee_b_per_liquidity,
            total_liquidity,
        )?;
        let pending_b = safe_add_u64(self.fee_b_pending, delta_b)?;
        self.fee_a_pending = pending_a;
        self.fee_b_pending = pending_b;
        self.fee_a_per_token_checkpoint = fee_a_per_liquidity;
        self.fee_b_per_token_checkpoint = fee_b_per_liquidity;
        Ok(())
    }

    pub fn add_liquidity(&mut self, liquidity_delta: u128) -> (res: Result<(), PoolError>)
        ensures
            match res {
                Ok(()) => old(self).unlocked_liquidity + liquidity_delta <= u128::MAX && *final(
                self) == (Position {
                    unlocked_liquidity: (old(self).unlocked_liquidity
                        + liquidity_delta) as u128,
                    ..*old(self)
                }),
                Err(e) => e == PoolError::MathOverflow && old(self).unlocked_liquidity
                    + liquidity_delta > u128::MAX && *final(self) == *old(self),
            },
    {
        let updated = safe_add_u128(self.unlocked_liquidity, liquidity_delta)?;
        self.unlocked_liquidity = updated;
        Ok(())
    }

    pub fn remove_unlocked_liquidity(&mut self, liquidity_delta: u128) -> (res: Result<
        (),
        PoolError,
    >)
        ensures
            match res {
                Ok(()) => liquidity_delta <= old(self).unlocked_liquidity && *final(self)
                    == (Position {
                    unlocked_liquidity: (old(self).unlocked_liquidity
                        - liquidity_delta) as u128,
                    ..*old(self)
                }),
                Err(e) => e == PoolError::MathOverflow && liquidity_delta > old(
                    self,
                ).unlocked_liquidity && *final(self) == *old(self),
            },
    {
        let updated = safe_sub_u128(self.unlocked_liquidity, liquidity_delta)?;
        self.unlocked_liquidity = updated;
        Ok(())
    }

    /// The position after syncing one reward slot to the pool's cumulative
    /// accumulator.
    pub open spec fn spec_update_reward_slot(self, slot: int, accumulator: U256) -> Result<
        Position,
        PoolError,
    >
        recommends
            0 <= slot < NUM_REWARDS,
    {
        if self.spec_total_liquidity() > u128::MAX {
            Err(PoolError::MathOverflow)
        } else {
            match spec_pending_delta(
                self.reward_infos[slot].reward_per_token_checkpoint,
                accumulator,
                self.spec_total_liquidity(),
            ) {
                Err(e) => Err(e),
                Ok(delta) => {
                    if self.reward_infos[slot].reward_pendings + delta > u64::MAX {
                        Err(PoolError::MathOverflow)
                    } else {
                        Ok(
                            Position {
                                reward_infos: if slot == 0 {
                                    [
                                        UserRewardInfo {
                                            reward_per_token_checkpoint: accumulator,
                                            reward_pendings: (
                                            self.reward_infos[0].reward_pendings
                                                + delta) as u64,
                                        },
                                        self.reward_infos[1],
                                    ]
                                } else {
                                    [
                                        self.reward_infos[0],
                                        UserRewardInfo {
                                            reward_per_token_checkpoint: accumulator,
                                            reward_pendings: (
                                            self.reward_infos[1].reward_pendings
                                                + delta) as u64,
                                        },
                                    ]
                                },
                                ..self
                            },
                        )
                    }
                },
            }
        }
    }

    /// Refresh the pool's reward state, then credit this position with the
    /// rewards earned since its checkpoints.  Neither the pool nor the
    /// position is mutated when any step fails.
    pub fn update_reward(&mut self, pool: &mut Pool, current_time: u64) -> (res: Result<
        (),
        PoolError,
    >)
        ensures
            match res {
                Ok(()) => {
                    &&& old(pool).reward_infos[0].spec_update_rewards(
                        old(pool).liquidity,
                        current_time,
                    ) == Result::<crate::pool::RewardInfo, PoolError>::Ok(
                        final (pool).reward_infos[0],
                    )
                    &&& old(pool).reward_infos[1].spec_update_rewards(
                        old(pool).liquidity,
                        current_time,
                    ) == Result::<crate::pool::RewardInfo, PoolError>::Ok(
                        final (pool).reward_infos[1],
                    )
                    &&& *final(pool) == (Pool {
                        reward_infos: final (pool).reward_infos,
                        ..*old(pool)
                    })
                    &&& ({
                        let step0 = old(self).spec_update_reward_slot(
                            0,
                            final (pool).reward_infos[0].reward_per_token_stored,
                        );
                        &&& step0 is Ok
                        &&& step0->Ok_0.spec_update_reward_slot(
                            1,
                            final (pool).reward_infos[1].reward_per_token_stored,
                        ) == Result::<Position, PoolError>::Ok(*final(self))
                    })
                },
                Err(_) => *final(self) == *old(self) && *final(pool) == *old(pool),
            },
    {
        let mut staged_pool = *pool;
        staged_pool.update_rewards(current_time)?;
        let total_liquidity = self.get_total_liquidity()?;
        let mut staged = *self;

        let delta_0 = pending_delta(
            staged.reward_infos[0].reward_per_token_checkpoint,
            staged_pool.reward_infos[0].reward_per_token_stored,
            total_liquidity,
        )?;
        let pendings_0 = safe_add_u64(staged.reward_infos[0].reward_pendings, delta_0)?;
        staged.reward_infos = [
            UserRewardInfo {
                reward_per_token_checkpoint: staged_pool.reward_infos[0].reward_per_token_stored,
                reward_pendings: pendings_0,
            },
            staged.reward_infos[1],
        ];

        let delta_1 = pending_delta(
            staged.reward_infos[1].reward_per_token_checkpoint,
            staged_pool.reward_infos[1].reward_per_token_stored,
            total_liquidity,
        )?;
        let pendings_1 = safe_add_u64(staged.reward_infos[1].reward_pendings, delta_1)?;
        staged.reward_infos = [
            staged.reward_infos[0],
            UserRewardInfo {
                reward_per_token_checkpoint: staged_pool.reward_infos[1].reward_per_token_stored,
                reward_pendings: pendings_1,
            },
        ];

        *pool = staged_pool;
        *self = staged;
        Ok(())
    }

    /// Take all pending reward of one slot; the pending balance is zeroed.
    pub fn claim_reward(&mut self, reward_index: usize) -> (res: Result<u64, PoolError>)
        ensures
            match res {
                Ok(v) => {
                    &&& reward_index < NUM_REWARDS
                    &&& v == old(self).reward_infos[reward_index as int].reward_pendings
                    &&& *final(self) == (Position {
                        reward_infos: final (self).reward_infos,
                        ..*old(self)
                    })
                    &&& final (self).reward_infos[reward_index as int] == (UserRewardInfo {
                        reward_pendings: 0,
                        ..old(self).reward_infos[reward_index as int]
                    })
                    &&& final (self).reward_infos[1 - reward_index as int] == old(
                        self,
                    ).reward_infos[1 - reward_index as int]
                },
                Err(e) => reward_index >= NUM_REWARDS && e == PoolError::InvalidRewardIndex
                    && *final(self) == *old(self),
            },
    {
        if reward_index >= NUM_REWARDS {
            return Err(PoolError::InvalidRewardIndex);
        }
        let total_reward = self.reward_infos[reward_index].reward_pendings;
        let mut slot = self.reward_infos[reward_index];
        slot.reward_pendings = 0;
        if reward_index == 0 {
            self.reward_infos = [slot, self.reward_infos[1]];
        } else {
            self.reward_infos = [self.reward_infos[0], slot];
        }
        Ok(total_reward)
    }

    /// Take all pending fees; the pending balances are zeroed.
    pub fn claim_fee(&mut self) -> (amounts: (u64, u64))
        ensures
            amounts.0 == old(self).fee_a_pending,
            amounts.1 == old(self).fee_b_pending,
            *final(self) == (Position { fee_a_pending: 0, fee_b_pending: 0, ..*old(self) }),
    {
        let fee_a = self.fee_a_pending;
        let fee_b = self.fee_b_pending;
        self.fee_a_pending = 0;
        self.fee_b_pending = 0;
        (fee_a, fee_b)
    }
}

} // verus!
