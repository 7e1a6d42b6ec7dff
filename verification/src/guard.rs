use vstd::prelude::*;
use crate::error::TokenError;

verus! {

/// The payment that authorises a call: exactly one smallest unit.
pub const ONE_YOCTO: u128 = 1;

/// The share of the caller's compute allowance that is kept back for the
/// reconciliation of a transfer with callback.
pub const GAS_FOR_RESOLVE_TRANSFER: u64 = 5_000_000_000_000;

/// The compute allowance that a transfer with callback needs beyond what it
/// hands to the receiver's handler.
pub const GAS_FOR_FT_TRANSFER_CALL: u64 = 30_000_000_000_000;

/// Accepts a call to which exactly one smallest unit is attached, and
/// refuses every other with `Unauthorized`.
pub fn assert_one_yocto(attached_deposit: u128) -> (accepted: Result<(), TokenError>)
    ensures
        accepted == if attached_deposit == ONE_YOCTO {
            Ok::<(), TokenError>(())
        } else {
            Err::<(), TokenError>(TokenError::Unauthorized)
        },
{
    if attached_deposit == ONE_YOCTO {
        Ok(())
    } else {
        Err(TokenError::Unauthorized)
    }
}

/// Accepts a call that the contract makes to itself, and refuses every
/// other with `Unauthorized`.
pub fn assert_self(predecessor_id: &String, current_id: &String) -> (accepted: Result<
    (),
    TokenError,
>)
    ensures
        accepted == if predecessor_id@ == current_id@ {
            Ok::<(), TokenError>(())
        } else {
            Err::<(), TokenError>(TokenError::Unauthorized)
        },
{
    if *predecessor_id == *current_id {
        Ok(())
    } else {
        Err(TokenError::Unauthorized)
    }
}

/// What of a compute allowance goes to the receiver's handler: all but the
/// share that notification and reconciliation need.
pub open spec fn handler_allowance(prepaid_gas: u64) -> Result<u64, TokenError> {
    if prepaid_gas < GAS_FOR_FT_TRANSFER_CALL {
        Err(TokenError::InsufficientAllowance)
    } else {
        Ok((prepaid_gas - GAS_FOR_FT_TRANSFER_CALL) as u64)
    }
}

/// Apportions the caller's compute allowance: a fixed share stays with the
/// protocol, the rest goes to the receiver's handler. An allowance below the
/// fixed share fails with `InsufficientAllowance`.
pub fn check_allowance(prepaid_gas: u64) -> (for_handler: Result<u64, TokenError>)
    ensures
        for_handler == handler_allowance(prepaid_gas),
{
    if prepaid_gas < GAS_FOR_FT_TRANSFER_CALL {
        Err(TokenError::InsufficientAllowance)
    } else {
        Ok(prepaid_gas - GAS_FOR_FT_TRANSFER_CALL)
    }
}

} // verus!
