//! The error taxonomy of the ledger. Every operation either commits in full
//! or returns one of these and leaves the ledger untouched.

use vstd::prelude::*;

verus! {

/// Why an operation was refused. Each variant is tied by the operations'
/// contracts to the exact inputs and state on which it is returned.
#[derive(Clone, Copy, Debug, PartialEq, Eq, Structural)]
pub enum VaultError {
    /// The caller lacks the required authority, or the operation targets a
    /// vault, child account, payout or recipient that does not match.
    Unauthorized,
    /// A zero or otherwise malformed amount.
    InvalidAmount,
    /// A zero deposit amount (vault-level deposit).
    InvalidDepositAmount,
    /// A zero withdrawal amount (vault-level withdrawal).
    InvalidWithdrawAmount,
    /// A payout request or execution exceeds the child's remaining allowance.
    ExceedsAllowedPayout,
    /// A payout was already executed; it can never be executed twice.
    AlreadyExecuted,
    /// A checked arithmetic step would have overflowed.
    MathOverflow,
    /// The treasury balance is too low for the requested movement.
    InsufficientFunds,
    /// The treasury balance is too low (vault-level withdrawal).
    InsufficientBalance,
    /// Minting would push the total minted past the hard supply cap.
    ExceedsMaxSupply,
    /// The exchange-rate numerator must be greater than zero.
    InvalidNumerator,
    /// The exchange-rate denominator must be greater than zero.
    InvalidDenominator,
    /// A record with this key already exists; creation happens exactly once.
    AccountAlreadyExists,
}

} // verus!
