//! Structured notifications. Each successful operation returns one of these
//! records — the operation kind, the actors, the amount moved and the
//! resulting running totals — so an external auditor can observe the ledger
//! without reading its state.

use vstd::prelude::*;

verus! {

/// A vault was created.
#[derive(Clone, Copy, Debug, PartialEq, Eq, Structural)]
pub struct VaultInitialized {
    pub admin: u64,
    pub vault: u64,
    pub timestamp: i64,
}

/// A depositor moved funds into the treasury.
#[derive(Clone, Copy, Debug, PartialEq, Eq, Structural)]
pub struct DepositMade {
    pub depositor: u64,
    pub vault: u64,
    pub child: u64,
    pub amount: u64,
    pub child_total_deposited: u64,
}

/// The admin approved a payout against a child account.
#[derive(Clone, Copy, Debug, PartialEq, Eq, Structural)]
pub struct PayoutRequested {
    pub admin: u64,
    pub vault: u64,
    pub child: u64,
    /// The nonce that keys the newly created payout record.
    pub payout: u64,
    pub amount: u64,
}

/// An approved payout was settled to the depositor.
#[derive(Clone, Copy, Debug, PartialEq, Eq, Structural)]
pub struct PayoutExecuted {
    pub admin: u64,
    pub vault: u64,
    pub child: u64,
    pub recipient: u64,
    pub amount: u64,
    pub child_total_paid_out: u64,
}

/// The admin withdrew treasury funds to the fixed destination.
#[derive(Clone, Copy, Debug, PartialEq, Eq, Structural)]
pub struct AdminWithdrawal {
    pub admin: u64,
    pub vault: u64,
    pub amount: u64,
    pub vault_total_withdrawn: u64,
}

/// The vault-scoped derived-token mint was created.
#[derive(Clone, Copy, Debug, PartialEq, Eq, Structural)]
pub struct ValMintInitialized {
    pub admin: u64,
    pub vault: u64,
    /// The mint is scoped one-to-one to its vault, so the vault key
    /// identifies it.
    pub mint: u64,
}

/// A buyer exchanged native funds for freshly minted derived tokens.
#[derive(Clone, Copy, Debug, PartialEq, Eq, Structural)]
pub struct ValPurchased {
    pub user: u64,
    pub vault: u64,
    pub sol_amount: u64,
    pub val_amount: u64,
    pub total_minted: u64,
}

/// The admin changed the exchange rate.
#[derive(Clone, Copy, Debug, PartialEq, Eq, Structural)]
pub struct RateUpdated {
    pub admin: u64,
    pub vault: u64,
    pub old_numerator: u64,
    pub old_denominator: u64,
    pub new_numerator: u64,
    pub new_denominator: u64,
}

} // verus!
