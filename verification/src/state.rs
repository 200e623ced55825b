//! The three persisted record types of the ledger, with their
//! well-formedness invariants.
//!
//! Identities and record keys are plain `u64` values: the deterministic
//! address-derivation scheme of the surrounding platform is collision-free
//! by construction, so a record is keyed here directly by the seed values
//! that the derivation would consume (a vault by its admin's key, a child by
//! its vault and depositor, a payout by its vault, child and nonce). The
//! disambiguation bytes ("bumps") that the derivation returns are carried
//! along as opaque data.

use vstd::prelude::*;

verus! {

/// The root record of one administrator's treasury.
#[derive(Clone, Copy, Debug, PartialEq, Eq, Structural)]
pub struct Vault {
    /// The admin identity that controls every privileged operation.
    pub admin_authority: u64,
    /// The one fixed destination of admin withdrawals; never a parameter.
    pub admin_destination: u64,
    /// Exchange-rate numerator: val = sol * numerator / denominator.
    pub val_per_sol_numerator: u64,
    /// Exchange-rate denominator; always greater than zero.
    pub val_per_sol_denominator: u64,
    /// Hard cap on the derived tokens that can ever be minted.
    pub max_supply: u64,
    /// Derived tokens minted so far; never exceeds `max_supply`.
    pub total_minted: u64,
    /// Running total of vault-level deposits.
    pub total_deposited: u64,
    /// Running total of admin withdrawals.
    pub total_withdrawn: u64,
    /// Timestamp of creation.
    pub created_at: i64,
    /// Disambiguation byte of the vault's own derived address.
    pub vault_bump: u8,
    /// Disambiguation byte of the treasury's derived address.
    pub treasury_bump: u8,
    /// The physical balance of the treasury account that this vault owns.
    pub treasury_lamports: u64,
    /// Whether the vault-scoped derived-token mint has been created.
    pub val_mint_initialized: bool,
}

impl Vault {
    /// The vault's own arithmetic invariants: a usable exchange rate and a
    /// minted total within the cap.
    pub open spec fn wf(self) -> bool {
        &&& self.val_per_sol_numerator > 0
        &&& self.val_per_sol_denominator > 0
        &&& self.total_minted <= self.max_supply
    }
}

/// One depositor's sub-ledger within a vault, created on first deposit.
#[derive(Clone, Copy, Debug, PartialEq, Eq, Structural)]
pub struct ChildAccount {
    /// The key of the owning vault (its admin's identity).
    pub vault: u64,
    /// The depositor identity entitled to receive payouts.
    pub authority: u64,
    /// Everything this depositor has ever deposited.
    pub total_deposited: u64,
    /// Everything ever paid out to this depositor.
    pub total_paid_out: u64,
    /// Timestamp of creation.
    pub created_at: i64,
    /// Disambiguation byte of the child's derived address.
    pub bump: u8,
}

impl ChildAccount {
    /// The binding constraint of the whole design: payouts never exceed
    /// what this depositor actually contributed.
    pub open spec fn wf(self) -> bool {
        self.total_paid_out <= self.total_deposited
    }

    /// The allowance still payable to this depositor.
    pub open spec fn remaining(self) -> int {
        self.total_deposited - self.total_paid_out
    }
}

/// A two-phase payout approval: created by a request, consumed by exactly
/// one execution, retained afterwards for audit.
#[derive(Clone, Copy, Debug, PartialEq, Eq, Structural)]
pub struct PendingPayout {
    /// The key of the owning vault.
    pub vault: u64,
    /// The key of the child account the payout draws on (its depositor).
    pub child: u64,
    /// The caller-supplied nonce that keys this request; it lets several
    /// requests against the same child stand open at once.
    pub nonce: u64,
    /// The approved amount; always greater than zero.
    pub amount: u64,
    /// Timestamp of the request.
    pub requested_at: i64,
    /// Flips false to true exactly once, at execution; never back.
    pub executed: bool,
    /// Disambiguation byte of the payout's derived address.
    pub bump: u8,
}

impl PendingPayout {
    /// A payout is only ever created for a positive amount.
    pub open spec fn wf(self) -> bool {
        self.amount > 0
    }
}

} // verus!
