//! Access control over pool operations: which of the four capabilities a
//! caller has, decided by pool status, activation state and whitelisting.
//!
//! The validator set is a small closed family dispatched by pool type; the
//! permissionless validator is the one every pool uses today.

use vstd::prelude::*;
use crate::pool::{Pool, Pubkey};
use crate::PoolError;

verus! {

/// What kind of point gates activation.
#[derive(Clone, Copy, Debug, PartialEq, Eq, Structural)]
pub enum ActivationType {
    /// Activation is measured in slots.
    Slot,
    /// Activation is measured in Unix seconds.
    Timestamp,
}

impl ActivationType {
    pub fn try_from_u8(value: u8) -> (res: Result<ActivationType, PoolError>)
        ensures
            value == 0 ==> res == Result::<ActivationType, PoolError>::Ok(ActivationType::Slot),
            value == 1 ==> res == Result::<ActivationType, PoolError>::Ok(
                ActivationType::Timestamp,
            ),
            value >= 2 ==> res is Err,
    {
        if value == 0 {
            Ok(ActivationType::Slot)
        } else if value == 1 {
            Ok(ActivationType::Timestamp)
        } else {
            Err(PoolError::TypeCastFailed)
        }
    }
}

/// The four capability questions every pool access validator answers.
pub trait PoolActionAccess {
    spec fn spec_can_add_liquidity(&self) -> bool;

    spec fn spec_can_remove_liquidity(&self) -> bool;

    spec fn spec_can_swap(&self, sender: Pubkey) -> bool;

    spec fn spec_can_create_position(&self) -> bool;

    fn can_add_liquidity(&self) -> (r: bool)
        ensures
            r == self.spec_can_add_liquidity(),
    ;

    fn can_remove_liquidity(&self) -> (r: bool)
        ensures
            r == self.spec_can_remove_liquidity(),
    ;

    fn can_swap(&self, sender: &Pubkey) -> (r: bool)
        ensures
            r == self.spec_can_swap(*sender),
    ;

    fn can_create_position(&self) -> (r: bool)
        ensures
            r == self.spec_can_create_position(),
    ;
}

/// Validator for permissionless pools: everything requires the pool to be
/// enabled; swapping additionally requires the activation point to have
/// passed, except for the whitelisted vault, which may buy early.
/// Removing liquidity is always allowed, even from a disabled pool.
#[derive(Clone, Copy, Debug, PartialEq, Eq, Structural)]
pub struct PermissionlessActionAccess {
    pub is_enabled: bool,
    pub is_activated: bool,
    pub whitelisted_vault: Pubkey,
}

impl PermissionlessActionAccess {
    pub fn new(pool: &Pool, current_point: u64) -> (r: PermissionlessActionAccess)
        ensures
            r.is_enabled == (pool.pool_status == 0),
            r.is_activated == (current_point >= pool.activation_point),
            r.whitelisted_vault == pool.whitelisted_vault,
    {
        PermissionlessActionAccess {
            is_enabled: pool.pool_status == 0,
            is_activated: current_point >= pool.activation_point,
            whitelisted_vault: pool.whitelisted_vault,
        }
    }
}

impl PoolActionAccess for PermissionlessActionAccess {
    open spec fn spec_can_add_liquidity(&self) -> bool {
        self.is_enabled
    }

    open spec fn spec_can_remove_liquidity(&self) -> bool {
        true
    }

    open spec fn spec_can_swap(&self, sender: Pubkey) -> bool {
        self.is_enabled && (self.is_activated || (!self.whitelisted_vault.spec_is_zero()
            && sender == self.whitelisted_vault))
    }

    open spec fn spec_can_create_position(&self) -> bool {
        self.is_enabled
    }

    fn can_add_liquidity(&self) -> (r: bool) {
        self.is_enabled
    }

    fn can_remove_liquidity(&self) -> (r: bool) {
        true
    }

    fn can_swap(&self, sender: &Pubkey) -> (r: bool) {
        self.is_enabled && (self.is_activated || (!self.whitelisted_vault.is_zero() && *sender
            == self.whitelisted_vault))
    }

    fn can_create_position(&self) -> (r: bool) {
        self.is_enabled
    }
}

/// The access validator for a pool.  The validator family is closed and
/// today holds a single member, so the concrete type is returned.
pub fn get_pool_access_validator(pool: &Pool, current_point: u64) -> (res: Result<
    PermissionlessActionAccess,
    PoolError,
>)
    ensures
        match res {
            Ok(v) => v == (PermissionlessActionAccess {
                is_enabled: pool.pool_status == 0,
                is_activated: current_point >= pool.activation_point,
                whitelisted_vault: pool.whitelisted_vault,
            }),
            Err(_) => false,
        },
{
    Ok(PermissionlessActionAccess::new(pool, current_point))
}

} // verus!
