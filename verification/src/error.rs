use vstd::prelude::*;

verus! {

/// Why an operation on the ledger was refused. Every refusal is final: the
/// state is left as it was and nothing is retried.
#[derive(Clone, Copy, Debug, PartialEq, Eq, Structural)]
pub enum TokenError {
    /// No token is recorded under the symbol.
    NotFound,
    /// A token is already recorded under the symbol.
    TokenAlreadyExists,
    /// The account holds no balance entry under the symbol.
    AccountNotRegistered,
    /// The account already holds a balance entry under the symbol.
    AlreadyRegistered,
    /// Sender and receiver of a transfer are the same account.
    SameAccountTransfer,
    /// A balance, a supply or a reserve would drop below zero.
    InsufficientBalance,
    /// A balance, a supply or a reserve would exceed what a `u128` holds.
    BalanceOverflow,
    /// The reserve ratio is above one, or the curve is singular at the state.
    InvalidCurveParameters,
    /// The compute allowance does not cover notification and reconciliation.
    InsufficientAllowance,
    /// An account leaves while it still holds tokens.
    NonZeroBalanceOnDeregister,
    /// The caller may not perform the operation, or the one-unit payment
    /// that authorises it is missing.
    Unauthorized,
    /// The attached storage fee is not the fee that is asked for.
    WrongStorageFee,
    /// The external collateral ledger refused to move the collateral.
    CollateralMoveFailed,
    /// An account sets an allowance for itself.
    SelfAllowance,
}

} // verus!
