//! The ledger itself: a keyed store of vaults, child accounts and pending
//! payouts, and the operations that the outside world may invoke on it.
//!
//! Records are self-keyed — a vault by its admin's identity, a child by
//! (vault, depositor), a payout by (vault, child, nonce) — and the store
//! keeps at most one record per key, which models the platform's
//! creation-once address derivation. Every operation is specified by a pure
//! transition function (`apply_*`) on the ledger's mathematical view: the
//! executable method is proved to return exactly that transition's result
//! and to leave the ledger in exactly that transition's state. On any error
//! the ledger is unchanged.

use vstd::prelude::*;

use crate::errors::VaultError;
use crate::events::{
    AdminWithdrawal, DepositMade, PayoutExecuted, PayoutRequested, RateUpdated,
    ValMintInitialized, ValPurchased, VaultInitialized,
};
use crate::math::{checked_add_u64, checked_sub_u64, compute_val_amount, val_amount_spec};
use crate::state::{ChildAccount, PendingPayout, Vault};

verus! {

/// The persistent state of the whole system.
pub struct Ledger {
    /// One vault per administrator identity.
    pub vaults: Vec<Vault>,
    /// One child account per (vault, depositor) pair.
    pub children: Vec<ChildAccount>,
    /// One pending payout per (vault, child, nonce) triple.
    pub payouts: Vec<PendingPayout>,
}

/// The mathematical view of a ledger: the same three stores as sequences.
#[verifier::ext_equal]
pub struct LedgerView {
    pub vaults: Seq<Vault>,
    pub children: Seq<ChildAccount>,
    pub payouts: Seq<PendingPayout>,
}

impl View for Ledger {
    type V = LedgerView;

    open spec fn view(&self) -> LedgerView {
        LedgerView {
            vaults: self.vaults@,
            children: self.children@,
            payouts: self.payouts@,
        }
    }
}

impl LedgerView {
    /// Some vault is keyed by this admin identity.
    pub open spec fn has_vault(self, admin: u64) -> bool {
        exists|i: int|
            0 <= i < self.vaults.len() && (#[trigger] self.vaults[i]).admin_authority == admin
    }

    /// The index of the vault keyed by this admin identity.
    pub open spec fn vault_idx(self, admin: u64) -> int {
        choose|i: int|
            0 <= i < self.vaults.len() && (#[trigger] self.vaults[i]).admin_authority == admin
    }

    /// The vault keyed by this admin identity.
    pub open spec fn vault_of(self, admin: u64) -> Vault {
        self.vaults[self.vault_idx(admin)]
    }

    /// Some child account is keyed by this (vault, depositor) pair.
    pub open spec fn has_child(self, vault: u64, authority: u64) -> bool {
        exists|i: int|
            0 <= i < self.children.len() && (#[trigger] self.children[i]).vault == vault
                && self.children[i].authority == authority
    }

    /// The index of the child account keyed by this (vault, depositor) pair.
    pub open spec fn child_idx(self, vault: u64, authority: u64) -> int {
        choose|i: int|
            0 <= i < self.children.len() && (#[trigger] self.children[i]).vault == vault
                && self.children[i].authority == authority
    }

    /// The child account keyed by this (vault, depositor) pair.
    pub open spec fn child_of(self, vault: u64, authority: u64) -> ChildAccount {
        self.children[self.child_idx(vault, authority)]
    }

    /// Some payout is keyed by this (vault, child, nonce) triple.
    pub open spec fn has_payout(self, vault: u64, child: u64, nonce: u64) -> bool {
        exists|i: int|
            0 <= i < self.payouts.len() && (#[trigger] self.payouts[i]).vault == vault
                && self.payouts[i].child == child && self.payouts[i].nonce == nonce
    }

    /// The index of the payout keyed by this (vault, child, nonce) triple.
    pub open spec fn payout_idx(self, vault: u64, child: u64, nonce: u64) -> int {
        choose|i: int|
            0 <= i < self.payouts.len() && (#[trigger] self.payouts[i]).vault == vault
                && self.payouts[i].child == child && self.payouts[i].nonce == nonce
    }

    /// The payout keyed by this (vault, child, nonce) triple.
    pub open spec fn payout_of(self, vault: u64, child: u64, nonce: u64) -> PendingPayout {
        self.payouts[self.payout_idx(vault, child, nonce)]
    }

    /// No two vaults share an admin identity.
    pub open spec fn vaults_unique(self) -> bool {
        forall|i: int, j: int|
            0 <= i < j < self.vaults.len() ==> (#[trigger] self.vaults[i]).admin_authority != (
            #[trigger] self.vaults[j]).admin_authority
    }

    /// No two child accounts share a (vault, depositor) key.
    pub open spec fn children_unique(self) -> bool {
        forall|i: int, j: int|
            0 <= i < j < self.children.len() ==> !((#[trigger] self.children[i]).vault == (
            #[trigger] self.children[j]).vault && self.children[i].authority
                == self.children[j].authority)
    }

    /// No two payouts share a (vault, child, nonce) key.
    pub open spec fn payouts_unique(self) -> bool {
        forall|i: int, j: int|
            0 <= i < j < self.payouts.len() ==> !((#[trigger] self.payouts[i]).vault == (
            #[trigger] self.payouts[j]).vault && self.payouts[i].child == self.payouts[j].child
                && self.payouts[i].nonce == self.payouts[j].nonce)
    }

    /// Well-formedness of the whole ledger: unique keys, and every record's
    /// own invariant — in particular, no child ever paid out more than it
    /// deposited, and no vault ever minted past its cap.
    pub open spec fn wf(self) -> bool {
        &&& self.vaults_unique()
        &&& self.children_unique()
        &&& self.payouts_unique()
        &&& forall|i: int| 0 <= i < self.vaults.len() ==> (#[trigger] self.vaults[i]).wf()
        &&& forall|i: int| 0 <= i < self.children.len() ==> (#[trigger] self.children[i]).wf()
        &&& forall|i: int| 0 <= i < self.payouts.len() ==> (#[trigger] self.payouts[i]).wf()
    }

    /// With unique keys, an index holding a matching vault is the looked-up
    /// index.
    pub proof fn lemma_vault_idx_is(self, admin: u64, i: int)
        requires
            self.vaults_unique(),
            0 <= i < self.vaults.len(),
            self.vaults[i].admin_authority == admin,
        ensures
            self.has_vault(admin),
            self.vault_idx(admin) == i,
            self.vault_of(admin) == self.vaults[i],
    {
        assert(self.has_vault(admin));
        let j = self.vault_idx(admin);
        assert(0 <= j < self.vaults.len() && self.vaults[j].admin_authority == admin);
        if i < j {
            assert(self.vaults[i].admin_authority != self.vaults[j].admin_authority);
        } else if j < i {
            assert(self.vaults[j].admin_authority != self.vaults[i].admin_authority);
        }
    }

    /// With unique keys, an index holding a matching child is the looked-up
    /// index.
    pub proof fn lemma_child_idx_is(self, vault: u64, authority: u64, i: int)
        requires
            self.children_unique(),
            0 <= i < self.children.len(),
            self.children[i].vault == vault,
            self.children[i].authority == authority,
        ensures
            self.has_child(vault, authority),
            self.child_idx(vault, authority) == i,
            self.child_of(vault, authority) == self.children[i],
    {
        assert(self.has_child(vault, authority));
        let j = self.child_idx(vault, authority);
        assert(0 <= j < self.children.len() && self.children[j].vault == vault
            && self.children[j].authority == authority);
        if i < j {
            assert(!(self.children[i].vault == self.children[j].vault
                && self.children[i].authority == self.children[j].authority));
        } else if j < i {
            assert(!(self.children[j].vault == self.children[i].vault
                && self.children[j].authority == self.children[i].authority));
        }
    }

    /// With unique keys, an index holding a matching payout is the looked-up
    /// index.
    pub proof fn lemma_payout_idx_is(self, vault: u64, child: u64, nonce: u64, i: int)
        requires
            self.payouts_unique(),
            0 <= i < self.payouts.len(),
            self.payouts[i].vault == vault,
            self.payouts[i].child == child,
            self.payouts[i].nonce == nonce,
        ensures
            self.has_payout(vault, child, nonce),
            self.payout_idx(vault, child, nonce) == i,
            self.payout_of(vault, child, nonce) == self.payouts[i],
    {
        assert(self.has_payout(vault, child, nonce));
        let j = self.payout_idx(vault, child, nonce);
        assert(0 <= j < self.payouts.len() && self.payouts[j].vault == vault
            && self.payouts[j].child == child && self.payouts[j].nonce == nonce);
        if i < j {
            assert(!(self.payouts[i].vault == self.payouts[j].vault && self.payouts[i].child
                == self.payouts[j].child && self.payouts[i].nonce == self.payouts[j].nonce));
        } else if j < i {
            assert(!(self.payouts[j].vault == self.payouts[i].vault && self.payouts[j].child
                == self.payouts[i].child && self.payouts[j].nonce == self.payouts[i].nonce));
        }
    }

    /// Replacing a vault with a well-formed one under the same key keeps the
    /// ledger well-formed.
    pub proof fn lemma_vault_update_wf(self, i: int, v: Vault)
        requires
            self.wf(),
            0 <= i < self.vaults.len(),
            v.wf(),
            v.admin_authority == self.vaults[i].admin_authority,
        ensures
            (LedgerView {
                vaults: self.vaults.update(i, v),
                children: self.children,
                payouts: self.payouts,
            }).wf(),
    {
        let post = LedgerView {
            vaults: self.vaults.update(i, v),
            children: self.children,
            payouts: self.payouts,
        };
        assert forall|a: int, b: int| 0 <= a < b < post.vaults.len() implies (
        #[trigger] post.vaults[a]).admin_authority != (
        #[trigger] post.vaults[b]).admin_authority by {
            assert(self.vaults[a].admin_authority != self.vaults[b].admin_authority);
        }
    }

    /// The transition of `update_exchange_rate`: an admin-only, immediate
    /// change of the rate; both components must be positive.
    pub open spec fn apply_update_exchange_rate(
        self,
        admin: u64,
        new_numerator: u64,
        new_denominator: u64,
    ) -> (LedgerView, Result<RateUpdated, VaultError>) {
        if !self.has_vault(admin) {
            (self, Err(VaultError::Unauthorized))
        } else if new_numerator == 0 {
            (self, Err(VaultError::InvalidNumerator))
        } else if new_denominator == 0 {
            (self, Err(VaultError::InvalidDenominator))
        } else {
            let v = self.vault_of(admin);
            let v2 = Vault {
                val_per_sol_numerator: new_numerator,
                val_per_sol_denominator: new_denominator,
                ..v
            };
            let post = LedgerView {
                vaults: self.vaults.update(self.vault_idx(admin), v2),
                children: self.children,
                payouts: self.payouts,
            };
            let event = RateUpdated {
                admin: admin,
                vault: admin,
                old_numerator: v.val_per_sol_numerator,
                old_denominator: v.val_per_sol_denominator,
                new_numerator: new_numerator,
                new_denominator: new_denominator,
            };
            (post, Ok(event))
        }
    }

    /// The transition of `initialize_val_mint`: admin-only creation of the
    /// vault-scoped derived-token mint, exactly once.
    pub open spec fn apply_initialize_val_mint(self, admin: u64) -> (
        LedgerView,
        Result<ValMintInitialized, VaultError>,
    ) {
        if !self.has_vault(admin) {
            (self, Err(VaultError::Unauthorized))
        } else if self.vault_of(admin).val_mint_initialized {
            (self, Err(VaultError::AccountAlreadyExists))
        } else {
            let v2 = Vault { val_mint_initialized: true, ..self.vault_of(admin) };
            let post = LedgerView {
                vaults: self.vaults.update(self.vault_idx(admin), v2),
                children: self.children,
                payouts: self.payouts,
            };
            let event = ValMintInitialized { admin: admin, vault: admin, mint: admin };
            (post, Ok(event))
        }
    }

    /// The transition of `admin_withdraw`: admin-only movement of treasury
    /// funds to the vault's one fixed destination — the destination is never
    /// a parameter, so even a compromised admin cannot redirect it.
    pub open spec fn apply_admin_withdraw(self, admin: u64, amount: u64) -> (
        LedgerView,
        Result<AdminWithdrawal, VaultError>,
    ) {
        if !self.has_vault(admin) {
            (self, Err(VaultError::Unauthorized))
        } else if amount == 0 {
            (self, Err(VaultError::InvalidAmount))
        } else if self.vault_of(admin).treasury_lamports < amount {
            (self, Err(VaultError::InsufficientFunds))
        } else if self.vault_of(admin).total_withdrawn + amount > u64::MAX {
            (self, Err(VaultError::MathOverflow))
        } else {
            let v = self.vault_of(admin);
            let v2 = Vault {
                treasury_lamports: (v.treasury_lamports - amount) as u64,
                total_withdrawn: (v.total_withdrawn + amount) as u64,
                ..v
            };
            let post = LedgerView {
                vaults: self.vaults.update(self.vault_idx(admin), v2),
                children: self.children,
                payouts: self.payouts,
            };
            let event = AdminWithdrawal {
                admin: admin,
                vault: admin,
                amount: amount,
                vault_total_withdrawn: v2.total_withdrawn,
            };
            (post, Ok(event))
        }
    }

    /// The transition of the vault-level `deposit`: moves funds into the
    /// treasury and raises the vault's running deposit total; no child
    /// account is involved.
    pub open spec fn apply_deposit(self, vault_admin: u64, depositor: u64, amount: u64) -> (
        LedgerView,
        Result<u64, VaultError>,
    ) {
        if !self.has_vault(vault_admin) {
            (self, Err(VaultError::Unauthorized))
        } else if amount == 0 {
            (self, Err(VaultError::InvalidDepositAmount))
        } else if self.vault_of(vault_admin).treasury_lamports + amount > u64::MAX {
            (self, Err(VaultError::MathOverflow))
        } else if self.vault_of(vault_admin).total_deposited + amount > u64::MAX {
            (self, Err(VaultError::MathOverflow))
        } else {
            let v = self.vault_of(vault_admin);
            let v2 = Vault {
                treasury_lamports: (v.treasury_lamports + amount) as u64,
                total_deposited: (v.total_deposited + amount) as u64,
                ..v
            };
            let post = LedgerView {
                vaults: self.vaults.update(self.vault_idx(vault_admin), v2),
                children: self.children,
                payouts: self.payouts,
            };
            (post, Ok(v2.total_deposited))
        }
    }

    /// The transition of the vault-level `withdraw`: admin-only movement of
    /// treasury funds back to the admin, raising the running withdrawal
    /// total.
    pub open spec fn apply_withdraw(self, admin: u64, amount: u64) -> (
        LedgerView,
        Result<u64, VaultError>,
    ) {
        if !self.has_vault(admin) {
            (self, Err(VaultError::Unauthorized))
        } else if amount == 0 {
            (self, Err(VaultError::InvalidWithdrawAmount))
        } else if self.vault_of(admin).treasury_lamports < amount {
            (self, Err(VaultError::InsufficientBalance))
        } else if self.vault_of(admin).total_withdrawn + amount > u64::MAX {
            (self, Err(VaultError::MathOverflow))
        } else {
            let v = self.vault_of(admin);
            let v2 = Vault {
                treasury_lamports: (v.treasury_lamports - amount) as u64,
                total_withdrawn: (v.total_withdrawn + amount) as u64,
                ..v
            };
            let post = LedgerView {
                vaults: self.vaults.update(self.vault_idx(admin), v2),
                children: self.children,
                payouts: self.payouts,
            };
            (post, Ok(v2.total_withdrawn))
        }
    }

    /// The transition of `deposit_and_auto_register`: a single call both
    /// registers the depositor's child account (first touch only) and moves
    /// `amount` into the treasury, raising the child's deposit total.
    pub open spec fn apply_deposit_and_auto_register(
        self,
        vault_admin: u64,
        depositor: u64,
        amount: u64,
        now: i64,
        child_bump: u8,
    ) -> (LedgerView, Result<DepositMade, VaultError>) {
        if !self.has_vault(vault_admin) {
            (self, Err(VaultError::Unauthorized))
        } else if amount == 0 {
            (self, Err(VaultError::InvalidAmount))
        } else {
            let child0 = if self.has_child(vault_admin, depositor) {
                self.child_of(vault_admin, depositor)
            } else {
                ChildAccount {
                    vault: vault_admin,
                    authority: depositor,
                    total_deposited: 0,
                    total_paid_out: 0,
                    created_at: now,
                    bump: child_bump,
                }
            };
            let v = self.vault_of(vault_admin);
            if v.treasury_lamports + amount > u64::MAX {
                (self, Err(VaultError::MathOverflow))
            } else if child0.total_deposited + amount > u64::MAX {
                (self, Err(VaultError::MathOverflow))
            } else {
                let child2 = ChildAccount {
                    total_deposited: (child0.total_deposited + amount) as u64,
                    ..child0
                };
                let v2 = Vault { treasury_lamports: (v.treasury_lamports + amount) as u64, ..v };
                let children2 = if self.has_child(vault_admin, depositor) {
                    self.children.update(self.child_idx(vault_admin, depositor), child2)
                } else {
                    self.children.push(child2)
                };
                let post = LedgerView {
                    vaults: self.vaults.update(self.vault_idx(vault_admin), v2),
                    children: children2,
                    payouts: self.payouts,
                };
                let event = DepositMade {
                    depositor: depositor,
                    vault: vault_admin,
                    child: depositor,
                    amount: amount,
                    child_total_deposited: child2.total_deposited,
                };
                (post, Ok(event))
            }
        }
    }

    /// The transition of `admin_request_payout`: admin-only approval of a
    /// payout against a child's remaining allowance at this moment. The
    /// nonce keys the new record, so several requests may stand open at
    /// once; reusing a nonce collides and fails. Outstanding unexecuted
    /// requests do not reduce the allowance here — execution re-validates.
    pub open spec fn apply_admin_request_payout(
        self,
        admin: u64,
        depositor: u64,
        amount: u64,
        nonce: u64,
        now: i64,
        payout_bump: u8,
    ) -> (LedgerView, Result<PayoutRequested, VaultError>) {
        if !self.has_vault(admin) {
            (self, Err(VaultError::Unauthorized))
        } else if !self.has_child(admin, depositor) {
            (self, Err(VaultError::Unauthorized))
        } else if self.has_payout(admin, depositor, nonce) {
            (self, Err(VaultError::AccountAlreadyExists))
        } else {
            let child = self.child_of(admin, depositor);
            if child.total_paid_out > child.total_deposited {
                (self, Err(VaultError::MathOverflow))
            } else if amount == 0 {
                (self, Err(VaultError::InvalidAmount))
            } else if amount > child.remaining() {
                (self, Err(VaultError::ExceedsAllowedPayout))
            } else {
                let payout = PendingPayout {
                    vault: admin,
                    child: depositor,
                    nonce: nonce,
                    amount: amount,
                    requested_at: now,
                    executed: false,
                    bump: payout_bump,
                };
                let post = LedgerView {
                    vaults: self.vaults,
                    children: self.children,
                    payouts: self.payouts.push(payout),
                };
                let event = PayoutRequested {
                    admin: admin,
                    vault: admin,
                    child: depositor,
                    payout: nonce,
                    amount: amount,
                };
                (post, Ok(event))
            }
        }
    }

    /// The transition of `admin_execute_payout`: settles one approved
    /// payout. The recipient must be the child's own authority; the child's
    /// remaining allowance is re-validated at execution time, never trusted
    /// from the request; the executed flag flips exactly once.
    pub open spec fn apply_admin_execute_payout(
        self,
        admin: u64,
        depositor: u64,
        nonce: u64,
        recipient: u64,
    ) -> (LedgerView, Result<PayoutExecuted, VaultError>) {
        if !self.has_vault(admin) {
            (self, Err(VaultError::Unauthorized))
        } else if !self.has_child(admin, depositor) {
            (self, Err(VaultError::Unauthorized))
        } else if !self.has_payout(admin, depositor, nonce) {
            (self, Err(VaultError::Unauthorized))
        } else if recipient != self.child_of(admin, depositor).authority {
            (self, Err(VaultError::Unauthorized))
        } else if self.payout_of(admin, depositor, nonce).executed {
            (self, Err(VaultError::AlreadyExecuted))
        } else {
            let child = self.child_of(admin, depositor);
            let payout = self.payout_of(admin, depositor, nonce);
            if child.total_paid_out > child.total_deposited {
                (self, Err(VaultError::MathOverflow))
            } else if payout.amount > child.remaining() {
                (self, Err(VaultError::ExceedsAllowedPayout))
            } else if self.vault_of(admin).treasury_lamports < payout.amount {
                (self, Err(VaultError::InvalidAmount))
            } else {
                let v = self.vault_of(admin);
                let v2 = Vault {
                    treasury_lamports: (v.treasury_lamports - payout.amount) as u64,
                    ..v
                };
                let child2 = ChildAccount {
                    total_paid_out: (child.total_paid_out + payout.amount) as u64,
                    ..child
                };
                let payout2 = PendingPayout { executed: true, ..payout };
                let post = LedgerView {
                    vaults: self.vaults.update(self.vault_idx(admin), v2),
                    children: self.children.update(self.child_idx(admin, depositor), child2),
                    payouts: self.payouts.update(self.payout_idx(admin, depositor, nonce), payout2),
                };
                let event = PayoutExecuted {
                    admin: admin,
                    vault: admin,
                    child: depositor,
                    recipient: recipient,
                    amount: payout.amount,
                    child_total_paid_out: child2.total_paid_out,
                };
                (post, Ok(event))
            }
        }
    }

    /// The transition of `buy_val`: exchanges native funds for freshly
    /// minted derived tokens at the vault's current rate,
    /// `floor(sol * numerator / denominator)`, strictly capped by
    /// `max_supply`. The cap is checked before anything moves.
    pub open spec fn apply_buy_val(self, vault_admin: u64, user: u64, sol_amount: u64) -> (
        LedgerView,
        Result<ValPurchased, VaultError>,
    ) {
        if !self.has_vault(vault_admin) {
            (self, Err(VaultError::Unauthorized))
        } else if !self.vault_of(vault_admin).val_mint_initialized {
            (self, Err(VaultError::Unauthorized))
        } else if sol_amount == 0 {
            (self, Err(VaultError::InvalidAmount))
        } else if self.vault_of(vault_admin).val_per_sol_denominator == 0 {
            (self, Err(VaultError::InvalidDenominator))
        } else {
            let v = self.vault_of(vault_admin);
            let val = val_amount_spec(
                sol_amount,
                v.val_per_sol_numerator,
                v.val_per_sol_denominator,
            );
            if val > u64::MAX {
                (self, Err(VaultError::MathOverflow))
            } else if v.total_minted + val > u64::MAX {
                (self, Err(VaultError::MathOverflow))
            } else if v.total_minted + val > v.max_supply {
                (self, Err(VaultError::ExceedsMaxSupply))
            } else if v.treasury_lamports + sol_amount > u64::MAX {
                (self, Err(VaultError::MathOverflow))
            } else {
                let v2 = Vault {
                    treasury_lamports: (v.treasury_lamports + sol_amount) as u64,
                    total_minted: (v.total_minted + val) as u64,
                    ..v
                };
                let post = LedgerView {
                    vaults: self.vaults.update(self.vault_idx(vault_admin), v2),
                    children: self.children,
                    payouts: self.payouts,
                };
                let event = ValPurchased {
                    user: user,
                    vault: vault_admin,
                    sol_amount: sol_amount,
                    val_amount: val as u64,
                    total_minted: v2.total_minted,
                };
                (post, Ok(event))
            }
        }
    }

    /// The `admin_request_payout` transition keeps the ledger well-formed.
    pub proof fn lemma_request_payout_wf(
        self,
        admin: u64,
        depositor: u64,
        amount: u64,
        nonce: u64,
        now: i64,
        payout_bump: u8,
    )
        requires
            self.wf(),
        ensures
            self.apply_admin_request_payout(admin, depositor, amount, nonce, now, payout_bump).0.wf(),
    {
        let post = self.apply_admin_request_payout(admin, depositor, amount, nonce, now, payout_bump).0;
        if post != self {
            assert forall|a: int, b: int| 0 <= a < b < post.payouts.len() implies !((
            #[trigger] post.payouts[a]).vault == (#[trigger] post.payouts[b]).vault
                && post.payouts[a].child == post.payouts[b].child && post.payouts[a].nonce
                == post.payouts[b].nonce) by {
                if b < post.payouts.len() - 1 {
                    assert(!(self.payouts[a].vault == self.payouts[b].vault && self.payouts[a].child
                        == self.payouts[b].child && self.payouts[a].nonce
                        == self.payouts[b].nonce));
                } else {
                    assert(post.payouts[a] == self.payouts[a]);
                }
            }
        }
    }

    /// The `admin_execute_payout` transition keeps the ledger well-formed.
    pub proof fn lemma_execute_payout_wf(self, admin: u64, depositor: u64, nonce: u64, recipient: u64)
        requires
            self.wf(),
        ensures
            self.apply_admin_execute_payout(admin, depositor, nonce, recipient).0.wf(),
    {
        let post = self.apply_admin_execute_payout(admin, depositor, nonce, recipient).0;
        if post != self {
            assert forall|a: int, b: int| 0 <= a < b < post.vaults.len() implies (
            #[trigger] post.vaults[a]).admin_authority != (
            #[trigger] post.vaults[b]).admin_authority by {
                assert(self.vaults[a].admin_authority != self.vaults[b].admin_authority);
            }
            assert forall|a: int, b: int| 0 <= a < b < post.children.len() implies !((
            #[trigger] post.children[a]).vault == (#[trigger] post.children[b]).vault
                && post.children[a].authority == post.children[b].authority) by {
                assert(!(self.children[a].vault == self.children[b].vault
                    && self.children[a].authority == self.children[b].authority));
            }
            assert forall|a: int, b: int| 0 <= a < b < post.payouts.len() implies !((
            #[trigger] post.payouts[a]).vault == (#[trigger] post.payouts[b]).vault
                && post.payouts[a].child == post.payouts[b].child && post.payouts[a].nonce
                == post.payouts[b].nonce) by {
                assert(!(self.payouts[a].vault == self.payouts[b].vault && self.payouts[a].child
                    == self.payouts[b].child && self.payouts[a].nonce == self.payouts[b].nonce));
            }
        }
    }

    /// The transition of `initialize`: creates the one vault keyed by this
    /// admin, or fails — on a key collision, or on a zero rate component —
    /// leaving the ledger unchanged.
    pub open spec fn apply_initialize(
        self,
        admin: u64,
        admin_destination: u64,
        numerator: u64,
        denominator: u64,
        max_supply: u64,
        now: i64,
        vault_bump: u8,
        treasury_bump: u8,
    ) -> (LedgerView, Result<VaultInitialized, VaultError>) {
        if self.has_vault(admin) {
            (self, Err(VaultError::AccountAlreadyExists))
        } else if numerator == 0 {
            (self, Err(VaultError::InvalidNumerator))
        } else if denominator == 0 {
            (self, Err(VaultError::InvalidDenominator))
        } else {
            let vault = Vault {
                admin_authority: admin,
                admin_destination: admin_destination,
                val_per_sol_numerator: numerator,
                val_per_sol_denominator: denominator,
                max_supply: max_supply,
                total_minted: 0,
                total_deposited: 0,
                total_withdrawn: 0,
                created_at: now,
                vault_bump: vault_bump,
                treasury_bump: treasury_bump,
                treasury_lamports: 0,
                val_mint_initialized: false,
            };
            let post = LedgerView {
                vaults: self.vaults.push(vault),
                children: self.children,
                payouts: self.payouts,
            };
            let event = VaultInitialized { admin: admin, vault: admin, timestamp: now };
            (post, Ok(event))
        }
    }
}

impl Ledger {
    /// An empty ledger: no vaults, no children, no payouts.
    pub fn new() -> (r: Ledger)
        ensures
            r@.vaults == Seq::<Vault>::empty(),
            r@.children == Seq::<ChildAccount>::empty(),
            r@.payouts == Seq::<PendingPayout>::empty(),
            r@.wf(),
    {
        Ledger { vaults: Vec::new(), children: Vec::new(), payouts: Vec::new() }
    }

    /// Finds the vault keyed by this admin identity.
    fn find_vault(&self, admin: u64) -> (r: Option<usize>)
        ensures
            match r {
                Some(i) => i < self.vaults.len() && self@.vaults[i as int].admin_authority
                    == admin && self@.has_vault(admin),
                None => !self@.has_vault(admin),
            },
    {
        let n = self.vaults.len();
        let mut k: usize = 0;
        while k < n
            invariant
                k <= n,
                n == self.vaults.len(),
                forall|j: int| 0 <= j < k ==> (#[trigger] self@.vaults[j]).admin_authority != admin,
            decreases n - k,
        {
            if self.vaults[k].admin_authority == admin {
                return Some(k);
            }
            k += 1;
        }
        None
    }

    /// Finds the child account keyed by this (vault, depositor) pair.
    fn find_child(&self, vault: u64, authority: u64) -> (r: Option<usize>)
        ensures
            match r {
                Some(i) => i < self.children.len() && self@.children[i as int].vault == vault
                    && self@.children[i as int].authority == authority && self@.has_child(
                    vault,
                    authority,
                ),
                None => !self@.has_child(vault, authority),
            },
    {
        let n = self.children.len();
        let mut k: usize = 0;
        while k < n
            invariant
                k <= n,
                n == self.children.len(),
                forall|j: int|
                    0 <= j < k ==> !((#[trigger] self@.children[j]).vault == vault
                        && self@.children[j].authority == authority),
            decreases n - k,
        {
            if self.children[k].vault == vault && self.children[k].authority == authority {
                return Some(k);
            }
            k += 1;
        }
        None
    }

    /// Finds the payout keyed by this (vault, child, nonce) triple.
    fn find_payout(&self, vault: u64, child: u64, nonce: u64) -> (r: Option<usize>)
        ensures
            match r {
                Some(i) => i < self.payouts.len() && self@.payouts[i as int].vault == vault
                    && self@.payouts[i as int].child == child && self@.payouts[i as int].nonce
                    == nonce && self@.has_payout(vault, child, nonce),
                None => !self@.has_payout(vault, child, nonce),
            },
    {
        let n = self.payouts.len();
        let mut k: usize = 0;
        while k < n
            invariant
                k <= n,
                n == self.payouts.len(),
                forall|j: int|
                    0 <= j < k ==> !((#[trigger] self@.payouts[j]).vault == vault
                        && self@.payouts[j].child == child && self@.payouts[j].nonce == nonce),
            decreases n - k,
        {
            if self.payouts[k].vault == vault && self.payouts[k].child == child
                && self.payouts[k].nonce == nonce {
                return Some(k);
            }
            k += 1;
        }
        None
    }

    /// Reads the vault keyed by this admin identity, without side effects.
    pub fn get_vault(&self, admin: u64) -> (r: Option<Vault>)
        requires
            self@.wf(),
        ensures
            r == if self@.has_vault(admin) {
                Some(self@.vault_of(admin))
            } else {
                None::<Vault>
            },
    {
        match self.find_vault(admin) {
            Some(i) => {
                proof {
                    self@.lemma_vault_idx_is(admin, i as int);
                }
                Some(self.vaults[i])
            },
            None => None,
        }
    }

    /// Reads the child account keyed by this (vault, depositor) pair,
    /// without side effects.
    pub fn get_child(&self, vault: u64, authority: u64) -> (r: Option<ChildAccount>)
        requires
            self@.wf(),
        ensures
            r == if self@.has_child(vault, authority) {
                Some(self@.child_of(vault, authority))
            } else {
                None::<ChildAccount>
            },
    {
        match self.find_child(vault, authority) {
            Some(i) => {
                proof {
                    self@.lemma_child_idx_is(vault, authority, i as int);
                }
                Some(self.children[i])
            },
            None => None,
        }
    }

    /// Reads the payout keyed by this (vault, child, nonce) triple, without
    /// side effects.
    pub fn get_payout(&self, vault: u64, child: u64, nonce: u64) -> (r: Option<PendingPayout>)
        requires
            self@.wf(),
        ensures
            r == if self@.has_payout(vault, child, nonce) {
                Some(self@.payout_of(vault, child, nonce))
            } else {
                None::<PendingPayout>
            },
    {
        match self.find_payout(vault, child, nonce) {
            Some(i) => {
                proof {
                    self@.lemma_payout_idx_is(vault, child, nonce, i as int);
                }
                Some(self.payouts[i])
            },
            None => None,
        }
    }

    /// Creates a vault bound permanently to `admin`, with the given
    /// withdrawal destination, exchange rate and supply cap. All counters
    /// start at zero. Fails with `AccountAlreadyExists` if this admin's
    /// vault exists already (creation happens exactly once), and with
    /// `InvalidNumerator` / `InvalidDenominator` on a zero rate component.
    pub fn initialize(
        &mut self,
        admin: u64,
        admin_destination: u64,
        val_per_sol_numerator: u64,
        val_per_sol_denominator: u64,
        max_supply: u64,
        now: i64,
        vault_bump: u8,
        treasury_bump: u8,
    ) -> (r: Result<VaultInitialized, VaultError>)
        requires
            old(self)@.wf(),
        ensures
            (final(self)@, r) == old(self)@.apply_initialize(
                admin,
                admin_destination,
                val_per_sol_numerator,
                val_per_sol_denominator,
                max_supply,
                now,
                vault_bump,
                treasury_bump,
            ),
            final(self)@.wf(),
    {
        if self.find_vault(admin).is_some() {
            return Err(VaultError::AccountAlreadyExists);
        }
        if val_per_sol_numerator == 0 {
            return Err(VaultError::InvalidNumerator);
        }
        if val_per_sol_denominator == 0 {
            return Err(VaultError::InvalidDenominator);
        }
        let vault = Vault {
            admin_authority: admin,
            admin_destination: admin_destination,
            val_per_sol_numerator: val_per_sol_numerator,
            val_per_sol_denominator: val_per_sol_denominator,
            max_supply: max_supply,
            total_minted: 0,
            total_deposited: 0,
            total_withdrawn: 0,
            created_at: now,
            vault_bump: vault_bump,
            treasury_bump: treasury_bump,
            treasury_lamports: 0,
            val_mint_initialized: false,
        };
        self.vaults.push(vault);
        proof {
            let pre = old(self)@;
            let post = self@;
            assert(post.vaults =~= pre.vaults.push(vault));
            assert(post =~= pre.apply_initialize(
                admin,
                admin_destination,
                val_per_sol_numerator,
                val_per_sol_denominator,
                max_supply,
                now,
                vault_bump,
                treasury_bump,
            ).0);
            assert forall|i: int, j: int| 0 <= i < j < post.vaults.len() implies (
            #[trigger] post.vaults[i]).admin_authority != (
            #[trigger] post.vaults[j]).admin_authority by {
                if j == post.vaults.len() - 1 {
                    assert(post.vaults[i] == pre.vaults[i]);
                }
            }
        }
        Ok(VaultInitialized { admin: admin, vault: admin, timestamp: now })
    }

    /// Admin-only: changes the exchange rate, effective for all subsequent
    /// purchases and with no effect on settled ones. Both components must be
    /// positive. Fails with `Unauthorized` if the caller owns no vault.
    pub fn update_exchange_rate(&mut self, admin: u64, new_numerator: u64, new_denominator: u64)
        -> (r: Result<RateUpdated, VaultError>)
        requires
            old(self)@.wf(),
        ensures
            (final(self)@, r) == old(self)@.apply_update_exchange_rate(
                admin,
                new_numerator,
                new_denominator,
            ),
            final(self)@.wf(),
    {
        let vi = match self.find_vault(admin) {
            Some(i) => i,
            None => { return Err(VaultError::Unauthorized) },
        };
        if new_numerator == 0 {
            return Err(VaultError::InvalidNumerator);
        }
        if new_denominator == 0 {
            return Err(VaultError::InvalidDenominator);
        }
        proof {
            old(self)@.lemma_vault_idx_is(admin, vi as int);
        }
        let v = self.vaults[vi];
        let v2 = Vault {
            val_per_sol_numerator: new_numerator,
            val_per_sol_denominator: new_denominator,
            ..v
        };
        self.vaults[vi] = v2;
        proof {
            old(self)@.lemma_vault_update_wf(vi as int, v2);
            assert(self@ =~= old(self)@.apply_update_exchange_rate(
                admin,
                new_numerator,
                new_denominator,
            ).0);
        }
        Ok(RateUpdated {
            admin: admin,
            vault: admin,
            old_numerator: v.val_per_sol_numerator,
            old_denominator: v.val_per_sol_denominator,
            new_numerator: new_numerator,
            new_denominator: new_denominator,
        })
    }

    /// Admin-only: creates the vault-scoped derived-token mint. The mint
    /// authority is a derived address scoped to the vault, so no human ever
    /// holds it. Fails with `AccountAlreadyExists` on a second creation.
    pub fn initialize_val_mint(&mut self, admin: u64) -> (r: Result<
        ValMintInitialized,
        VaultError,
    >)
        requires
            old(self)@.wf(),
        ensures
            (final(self)@, r) == old(self)@.apply_initialize_val_mint(admin),
            final(self)@.wf(),
    {
        let vi = match self.find_vault(admin) {
            Some(i) => i,
            None => { return Err(VaultError::Unauthorized) },
        };
        proof {
            old(self)@.lemma_vault_idx_is(admin, vi as int);
        }
        let v = self.vaults[vi];
        if v.val_mint_initialized {
            return Err(VaultError::AccountAlreadyExists);
        }
        let v2 = Vault { val_mint_initialized: true, ..v };
        self.vaults[vi] = v2;
        proof {
            old(self)@.lemma_vault_update_wf(vi as int, v2);
            assert(self@ =~= old(self)@.apply_initialize_val_mint(admin).0);
        }
        Ok(ValMintInitialized { admin: admin, vault: admin, mint: admin })
    }

    /// Admin-only: moves `amount` from the treasury to the vault's immutable
    /// `admin_destination`. Fails on a zero amount, on a treasury balance
    /// below `amount`, and on counter overflow; on any failure nothing
    /// moves.
    pub fn admin_withdraw(&mut self, admin: u64, amount: u64) -> (r: Result<
        AdminWithdrawal,
        VaultError,
    >)
        requires
            old(self)@.wf(),
        ensures
            (final(self)@, r) == old(self)@.apply_admin_withdraw(admin, amount),
            final(self)@.wf(),
    {
        let vi = match self.find_vault(admin) {
            Some(i) => i,
            None => { return Err(VaultError::Unauthorized) },
        };
        if amount == 0 {
            return Err(VaultError::InvalidAmount);
        }
        proof {
            old(self)@.lemma_vault_idx_is(admin, vi as int);
        }
        let v = self.vaults[vi];
        if v.treasury_lamports < amount {
            return Err(VaultError::InsufficientFunds);
        }
        let total_withdrawn = match checked_add_u64(v.total_withdrawn, amount) {
            Some(t) => t,
            None => { return Err(VaultError::MathOverflow) },
        };
        let v2 = Vault {
            treasury_lamports: v.treasury_lamports - amount,
            total_withdrawn: total_withdrawn,
            ..v
        };
        self.vaults[vi] = v2;
        proof {
            old(self)@.lemma_vault_update_wf(vi as int, v2);
            assert(self@ =~= old(self)@.apply_admin_withdraw(admin, amount).0);
        }
        Ok(AdminWithdrawal {
            admin: admin,
            vault: admin,
            amount: amount,
            vault_total_withdrawn: total_withdrawn,
        })
    }

    /// Vault-level deposit: moves `amount` from the depositor into the
    /// treasury and raises the vault's running deposit total, returning the
    /// new total. Fails on a zero amount and on counter overflow.
    pub fn deposit(&mut self, vault_admin: u64, depositor: u64, amount: u64) -> (r: Result<
        u64,
        VaultError,
    >)
        requires
            old(self)@.wf(),
        ensures
            (final(self)@, r) == old(self)@.apply_deposit(vault_admin, depositor, amount),
            final(self)@.wf(),
    {
        let vi = match self.find_vault(vault_admin) {
            Some(i) => i,
            None => { return Err(VaultError::Unauthorized) },
        };
        if amount == 0 {
            return Err(VaultError::InvalidDepositAmount);
        }
        proof {
            old(self)@.lemma_vault_idx_is(vault_admin, vi as int);
        }
        let v = self.vaults[vi];
        let treasury_lamports = match checked_add_u64(v.treasury_lamports, amount) {
            Some(t) => t,
            None => { return Err(VaultError::MathOverflow) },
        };
        let total_deposited = match checked_add_u64(v.total_deposited, amount) {
            Some(t) => t,
            None => { return Err(VaultError::MathOverflow) },
        };
        let v2 = Vault {
            treasury_lamports: treasury_lamports,
            total_deposited: total_deposited,
            ..v
        };
        self.vaults[vi] = v2;
        proof {
            old(self)@.lemma_vault_update_wf(vi as int, v2);
            assert(self@ =~= old(self)@.apply_deposit(vault_admin, depositor, amount).0);
        }
        Ok(total_deposited)
    }

    /// Vault-level withdrawal: admin-only; moves `amount` from the treasury
    /// back to the admin and returns the new running withdrawal total.
    pub fn withdraw(&mut self, admin: u64, amount: u64) -> (r: Result<u64, VaultError>)
        requires
            old(self)@.wf(),
        ensures
            (final(self)@, r) == old(self)@.apply_withdraw(admin, amount),
            final(self)@.wf(),
    {
        let vi = match self.find_vault(admin) {
            Some(i) => i,
            None => { return Err(VaultError::Unauthorized) },
        };
        if amount == 0 {
            return Err(VaultError::InvalidWithdrawAmount);
        }
        proof {
            old(self)@.lemma_vault_idx_is(admin, vi as int);
        }
        let v = self.vaults[vi];
        if v.treasury_lamports < amount {
            return Err(VaultError::InsufficientBalance);
        }
        let total_withdrawn = match checked_add_u64(v.total_withdrawn, amount) {
            Some(t) => t,
            None => { return Err(VaultError::MathOverflow) },
        };
        let v2 = Vault {
            treasury_lamports: v.treasury_lamports - amount,
            total_withdrawn: total_withdrawn,
            ..v
        };
        self.vaults[vi] = v2;
        proof {
            old(self)@.lemma_vault_update_wf(vi as int, v2);
            assert(self@ =~= old(self)@.apply_withdraw(admin, amount).0);
        }
        Ok(total_withdrawn)
    }

    /// Deposits `amount` into the vault's treasury for `depositor`,
    /// creating the depositor's child account on first touch. Fails on a
    /// zero amount and on counter overflow; on failure nothing moves and no
    /// account is created.
    pub fn deposit_and_auto_register(
        &mut self,
        vault_admin: u64,
        depositor: u64,
        amount: u64,
        now: i64,
        child_bump: u8,
    ) -> (r: Result<DepositMade, VaultError>)
        requires
            old(self)@.wf(),
        ensures
            (final(self)@, r) == old(self)@.apply_deposit_and_auto_register(
                vault_admin,
                depositor,
                amount,
                now,
                child_bump,
            ),
            final(self)@.wf(),
    {
        let vi = match self.find_vault(vault_admin) {
            Some(i) => i,
            None => { return Err(VaultError::Unauthorized) },
        };
        if amount == 0 {
            return Err(VaultError::InvalidAmount);
        }
        proof {
            old(self)@.lemma_vault_idx_is(vault_admin, vi as int);
        }
        let v = self.vaults[vi];
        let treasury_lamports = match checked_add_u64(v.treasury_lamports, amount) {
            Some(t) => t,
            None => { return Err(VaultError::MathOverflow) },
        };
        let v2 = Vault { treasury_lamports: treasury_lamports, ..v };
        match self.find_child(vault_admin, depositor) {
            Some(ci) => {
                proof {
                    old(self)@.lemma_child_idx_is(vault_admin, depositor, ci as int);
                }
                let child = self.children[ci];
                let total_deposited = match checked_add_u64(child.total_deposited, amount) {
                    Some(t) => t,
                    None => { return Err(VaultError::MathOverflow) },
                };
                let child2 = ChildAccount { total_deposited: total_deposited, ..child };
                self.children[ci] = child2;
                self.vaults[vi] = v2;
                proof {
                    let pre = old(self)@;
                    let post = self@;
                    assert(post =~= pre.apply_deposit_and_auto_register(
                        vault_admin,
                        depositor,
                        amount,
                        now,
                        child_bump,
                    ).0);
                    assert forall|a: int, b: int| 0 <= a < b < post.vaults.len() implies (
                    #[trigger] post.vaults[a]).admin_authority != (
                    #[trigger] post.vaults[b]).admin_authority by {
                        assert(pre.vaults[a].admin_authority != pre.vaults[b].admin_authority);
                    }
                    assert forall|a: int, b: int| 0 <= a < b < post.children.len() implies !((
                    #[trigger] post.children[a]).vault == (#[trigger] post.children[b]).vault
                        && post.children[a].authority == post.children[b].authority) by {
                        assert(!(pre.children[a].vault == pre.children[b].vault
                            && pre.children[a].authority == pre.children[b].authority));
                    }
                }
                Ok(DepositMade {
                    depositor: depositor,
                    vault: vault_admin,
                    child: depositor,
                    amount: amount,
                    child_total_deposited: total_deposited,
                })
            },
            None => {
                let child2 = ChildAccount {
                    vault: vault_admin,
                    authority: depositor,
                    total_deposited: amount,
                    total_paid_out: 0,
                    created_at: now,
                    bump: child_bump,
                };
                self.children.push(child2);
                self.vaults[vi] = v2;
                proof {
                    let pre = old(self)@;
                    let post = self@;
                    assert(post =~= pre.apply_deposit_and_auto_register(
                        vault_admin,
                        depositor,
                        amount,
                        now,
                        child_bump,
                    ).0);
                    assert forall|a: int, b: int| 0 <= a < b < post.vaults.len() implies (
                    #[trigger] post.vaults[a]).admin_authority != (
                    #[trigger] post.vaults[b]).admin_authority by {
                        assert(pre.vaults[a].admin_authority != pre.vaults[b].admin_authority);
                    }
                    assert forall|a: int, b: int| 0 <= a < b < post.children.len() implies !((
                    #[trigger] post.children[a]).vault == (#[trigger] post.children[b]).vault
                        && post.children[a].authority == post.children[b].authority) by {
                        if b < post.children.len() - 1 {
                            assert(!(pre.children[a].vault == pre.children[b].vault
                                && pre.children[a].authority == pre.children[b].authority));
                        } else {
                            assert(post.children[a] == pre.children[a]);
                        }
                    }
                }
                Ok(DepositMade {
                    depositor: depositor,
                    vault: vault_admin,
                    child: depositor,
                    amount: amount,
                    child_total_deposited: amount,
                })
            },
        }
    }

    /// Admin-only: approves a payout of `amount` against the remaining
    /// allowance of `depositor`'s child account, creating a pending payout
    /// keyed by the caller-supplied nonce. Fails on a nonce collision, a
    /// zero amount, or an amount above the allowance.
    pub fn admin_request_payout(
        &mut self,
        admin: u64,
        depositor: u64,
        amount: u64,
        nonce: u64,
        now: i64,
        payout_bump: u8,
    ) -> (r: Result<PayoutRequested, VaultError>)
        requires
            old(self)@.wf(),
        ensures
            (final(self)@, r) == old(self)@.apply_admin_request_payout(
                admin,
                depositor,
                amount,
                nonce,
                now,
                payout_bump,
            ),
            final(self)@.wf(),
    {
        if self.find_vault(admin).is_none() {
            return Err(VaultError::Unauthorized);
        }
        let ci = match self.find_child(admin, depositor) {
            Some(i) => i,
            None => { return Err(VaultError::Unauthorized) },
        };
        if self.find_payout(admin, depositor, nonce).is_some() {
            return Err(VaultError::AccountAlreadyExists);
        }
        proof {
            old(self)@.lemma_child_idx_is(admin, depositor, ci as int);
        }
        let child = self.children[ci];
        let remaining = match checked_sub_u64(child.total_deposited, child.total_paid_out) {
            Some(t) => t,
            None => { return Err(VaultError::MathOverflow) },
        };
        if amount == 0 {
            return Err(VaultError::InvalidAmount);
        }
        if amount > remaining {
            return Err(VaultError::ExceedsAllowedPayout);
        }
        let payout = PendingPayout {
            vault: admin,
            child: depositor,
            nonce: nonce,
            amount: amount,
            requested_at: now,
            executed: false,
            bump: payout_bump,
        };
        self.payouts.push(payout);
        proof {
            let pre = old(self)@;
            let post = self@;
            assert(post =~= pre.apply_admin_request_payout(
                admin,
                depositor,
                amount,
                nonce,
                now,
                payout_bump,
            ).0);
            assert forall|a: int, b: int| 0 <= a < b < post.payouts.len() implies !((
            #[trigger] post.payouts[a]).vault == (#[trigger] post.payouts[b]).vault
                && post.payouts[a].child == post.payouts[b].child && post.payouts[a].nonce
                == post.payouts[b].nonce) by {
                if b < post.payouts.len() - 1 {
                    assert(!(pre.payouts[a].vault == pre.payouts[b].vault && pre.payouts[a].child
                        == pre.payouts[b].child && pre.payouts[a].nonce == pre.payouts[b].nonce));
                } else {
                    assert(post.payouts[a] == pre.payouts[a]);
                }
            }
        }
        Ok(PayoutRequested {
            admin: admin,
            vault: admin,
            child: depositor,
            payout: nonce,
            amount: amount,
        })
    }

    /// Admin-only: settles one approved payout to the child's own authority
    /// — never to an arbitrary address. The allowance is re-validated
    /// against the child's totals as they stand now, the treasury must
    /// physically cover the amount, and a payout can be executed exactly
    /// once; the transfer, the counter update and the flag flip commit
    /// together or not at all.
    pub fn admin_execute_payout(&mut self, admin: u64, depositor: u64, nonce: u64, recipient: u64)
        -> (r: Result<PayoutExecuted, VaultError>)
        requires
            old(self)@.wf(),
        ensures
            (final(self)@, r) == old(self)@.apply_admin_execute_payout(
                admin,
                depositor,
                nonce,
                recipient,
            ),
            final(self)@.wf(),
    {
        let vi = match self.find_vault(admin) {
            Some(i) => i,
            None => { return Err(VaultError::Unauthorized) },
        };
        let ci = match self.find_child(admin, depositor) {
            Some(i) => i,
            None => { return Err(VaultError::Unauthorized) },
        };
        let pi = match self.find_payout(admin, depositor, nonce) {
            Some(i) => i,
            None => { return Err(VaultError::Unauthorized) },
        };
        proof {
            old(self)@.lemma_vault_idx_is(admin, vi as int);
            old(self)@.lemma_child_idx_is(admin, depositor, ci as int);
            old(self)@.lemma_payout_idx_is(admin, depositor, nonce, pi as int);
        }
        let child = self.children[ci];
        if recipient != child.authority {
            return Err(VaultError::Unauthorized);
        }
        let payout = self.payouts[pi];
        if payout.executed {
            return Err(VaultError::AlreadyExecuted);
        }
        let remaining = match checked_sub_u64(child.total_deposited, child.total_paid_out) {
            Some(t) => t,
            None => { return Err(VaultError::MathOverflow) },
        };
        if payout.amount > remaining {
            return Err(VaultError::ExceedsAllowedPayout);
        }
        let v = self.vaults[vi];
        if v.treasury_lamports < payout.amount {
            return Err(VaultError::InvalidAmount);
        }
        let total_paid_out = child.total_paid_out + payout.amount;
        let v2 = Vault { treasury_lamports: v.treasury_lamports - payout.amount, ..v };
        let child2 = ChildAccount { total_paid_out: total_paid_out, ..child };
        let payout2 = PendingPayout { executed: true, ..payout };
        self.vaults[vi] = v2;
        self.children[ci] = child2;
        self.payouts[pi] = payout2;
        proof {
            let pre = old(self)@;
            let post = self@;
            assert(post =~= pre.apply_admin_execute_payout(admin, depositor, nonce, recipient).0);
            assert forall|a: int, b: int| 0 <= a < b < post.vaults.len() implies (
            #[trigger] post.vaults[a]).admin_authority != (
            #[trigger] post.vaults[b]).admin_authority by {
                assert(pre.vaults[a].admin_authority != pre.vaults[b].admin_authority);
            }
            assert forall|a: int, b: int| 0 <= a < b < post.children.len() implies !((
            #[trigger] post.children[a]).vault == (#[trigger] post.children[b]).vault
                && post.children[a].authority == post.children[b].authority) by {
                assert(!(pre.children[a].vault == pre.children[b].vault
                    && pre.children[a].authority == pre.children[b].authority));
            }
            assert forall|a: int, b: int| 0 <= a < b < post.payouts.len() implies !((
            #[trigger] post.payouts[a]).vault == (#[trigger] post.payouts[b]).vault
                && post.payouts[a].child == post.payouts[b].child && post.payouts[a].nonce
                == post.payouts[b].nonce) by {
                assert(!(pre.payouts[a].vault == pre.payouts[b].vault && pre.payouts[a].child
                    == pre.payouts[b].child && pre.payouts[a].nonce == pre.payouts[b].nonce));
            }
        }
        Ok(PayoutExecuted {
            admin: admin,
            vault: admin,
            child: depositor,
            recipient: recipient,
            amount: payout.amount,
            child_total_paid_out: total_paid_out,
        })
    }

    /// Buys derived tokens: moves `sol_amount` into the treasury and mints
    /// `floor(sol_amount * numerator / denominator)` tokens to the buyer.
    /// The supply cap is checked before anything moves; exceeding it fails
    /// with `ExceedsMaxSupply` and moves nothing.
    pub fn buy_val(&mut self, vault_admin: u64, user: u64, sol_amount: u64) -> (r: Result<
        ValPurchased,
        VaultError,
    >)
        requires
            old(self)@.wf(),
        ensures
            (final(self)@, r) == old(self)@.apply_buy_val(vault_admin, user, sol_amount),
            final(self)@.wf(),
    {
        let vi = match self.find_vault(vault_admin) {
            Some(i) => i,
            None => { return Err(VaultError::Unauthorized) },
        };
        proof {
            old(self)@.lemma_vault_idx_is(vault_admin, vi as int);
        }
        let v = self.vaults[vi];
        if !v.val_mint_initialized {
            return Err(VaultError::Unauthorized);
        }
        if sol_amount == 0 {
            return Err(VaultError::InvalidAmount);
        }
        if v.val_per_sol_denominator == 0 {
            return Err(VaultError::InvalidDenominator);
        }
        let val_amount = match compute_val_amount(
            sol_amount,
            v.val_per_sol_numerator,
            v.val_per_sol_denominator,
        ) {
            Some(t) => t,
            None => { return Err(VaultError::MathOverflow) },
        };
        let total_minted = match checked_add_u64(v.total_minted, val_amount) {
            Some(t) => t,
            None => { return Err(VaultError::MathOverflow) },
        };
        if total_minted > v.max_supply {
            return Err(VaultError::ExceedsMaxSupply);
        }
        let treasury_lamports = match checked_add_u64(v.treasury_lamports, sol_amount) {
            Some(t) => t,
            None => { return Err(VaultError::MathOverflow) },
        };
        let v2 = Vault { treasury_lamports: treasury_lamports, total_minted: total_minted, ..v };
        self.vaults[vi] = v2;
        proof {
            old(self)@.lemma_vault_update_wf(vi as int, v2);
            assert(self@ =~= old(self)@.apply_buy_val(vault_admin, user, sol_amount).0);
        }
        Ok(ValPurchased {
            user: user,
            vault: vault_admin,
            sol_amount: sol_amount,
            val_amount: val_amount,
            total_minted: total_minted,
        })
    }
}

} // verus!
