//! The system-wide guarantees of the ledger, each stated and proved over
//! the same mathematical view and transition functions that the executable
//! operations are specified by.

use vstd::prelude::*;

use crate::errors::VaultError;
use crate::events::PayoutExecuted;
use crate::ledger::LedgerView;
use crate::math::val_amount_spec;
use crate::state::{ChildAccount, PendingPayout, Vault};

verus! {

/// In a well-formed ledger, no child account has ever paid out more than it
/// deposited. Every operation requires and re-establishes well-formedness,
/// so this holds at every observable point.
pub proof fn lemma_child_payout_bounded(s: LedgerView, i: int)
    requires
        s.wf(),
        0 <= i < s.children.len(),
    ensures
        s.children[i].total_paid_out <= s.children[i].total_deposited,
{
}

/// In a well-formed ledger, no vault has ever minted past its supply cap.
/// Every operation requires and re-establishes well-formedness, so this
/// holds at every observable point.
pub proof fn lemma_minted_within_cap(s: LedgerView, i: int)
    requires
        s.wf(),
        0 <= i < s.vaults.len(),
    ensures
        s.vaults[i].total_minted <= s.vaults[i].max_supply,
{
}

/// Creation happens exactly once: initializing a vault for an admin whose
/// vault already exists fails with a key collision and changes nothing — it
/// never silently overwrites.
pub proof fn lemma_initialize_is_creation_once(
    s: LedgerView,
    admin: u64,
    admin_destination: u64,
    numerator: u64,
    denominator: u64,
    max_supply: u64,
    now: i64,
    vault_bump: u8,
    treasury_bump: u8,
)
    requires
        s.has_vault(admin),
    ensures
        s.apply_initialize(
            admin,
            admin_destination,
            numerator,
            denominator,
            max_supply,
            now,
            vault_bump,
            treasury_bump,
        ) == (s, Err::<crate::events::VaultInitialized, VaultError>(
            VaultError::AccountAlreadyExists,
        )),
{
}

/// Round trip of the two-phase payout: an approved request, executed
/// immediately to the depositor while the treasury covers it, transfers
/// exactly the approved amount, raises the child's paid-out total by
/// exactly that amount, and marks the payout executed; executing the same
/// payout a second time fails with `AlreadyExecuted` and changes nothing.
pub proof fn lemma_payout_round_trip(
    s0: LedgerView,
    admin: u64,
    depositor: u64,
    amount: u64,
    nonce: u64,
    now: i64,
    payout_bump: u8,
    recipient: u64,
)
    requires
        s0.wf(),
        s0.apply_admin_request_payout(admin, depositor, amount, nonce, now, payout_bump).1 is Ok,
        recipient == depositor,
        s0.has_vault(admin),
        s0.vault_of(admin).treasury_lamports >= amount,
    ensures
        ({
            let s1 = s0.apply_admin_request_payout(
                admin,
                depositor,
                amount,
                nonce,
                now,
                payout_bump,
            ).0;
            let (s2, r2) = s1.apply_admin_execute_payout(admin, depositor, nonce, recipient);
            &&& r2 is Ok
            &&& r2 == Ok::<PayoutExecuted, VaultError>(
                PayoutExecuted {
                    admin: admin,
                    vault: admin,
                    child: depositor,
                    recipient: recipient,
                    amount: amount,
                    child_total_paid_out: (s0.child_of(admin, depositor).total_paid_out
                        + amount) as u64,
                },
            )
            &&& s2.vault_of(admin).treasury_lamports == s0.vault_of(admin).treasury_lamports
                - amount
            &&& s2.child_of(admin, depositor).total_paid_out == s0.child_of(
                admin,
                depositor,
            ).total_paid_out + amount
            &&& s2.payout_of(admin, depositor, nonce).executed
            &&& s2.apply_admin_execute_payout(admin, depositor, nonce, recipient) == (
                s2,
                Err::<PayoutExecuted, VaultError>(VaultError::AlreadyExecuted),
            )
        }),
{
    let s1 = s0.apply_admin_request_payout(admin, depositor, amount, nonce, now, payout_bump).0;
    let vi = s0.vault_idx(admin);
    assert(0 <= vi < s0.vaults.len() && s0.vaults[vi].admin_authority == admin);
    assert(s0.has_child(admin, depositor));
    let ci = s0.child_idx(admin, depositor);
    assert(0 <= ci < s0.children.len() && s0.children[ci].vault == admin
        && s0.children[ci].authority == depositor);
    let child0 = s0.child_of(admin, depositor);
    assert(amount > 0 && amount <= child0.remaining());
    s0.lemma_request_payout_wf(admin, depositor, amount, nonce, now, payout_bump);
    let payout = PendingPayout {
        vault: admin,
        child: depositor,
        nonce: nonce,
        amount: amount,
        requested_at: now,
        executed: false,
        bump: payout_bump,
    };
    assert(s1.payouts == s0.payouts.push(payout));
    let pi = s0.payouts.len() as int;
    s1.lemma_vault_idx_is(admin, vi);
    s1.lemma_child_idx_is(admin, depositor, ci);
    s1.lemma_payout_idx_is(admin, depositor, nonce, pi);
    assert(s1.vault_of(admin) == s0.vault_of(admin));
    assert(s1.child_of(admin, depositor) == child0);
    assert(s1.payout_of(admin, depositor, nonce) == payout);
    let (s2, r2) = s1.apply_admin_execute_payout(admin, depositor, nonce, recipient);
    s1.lemma_execute_payout_wf(admin, depositor, nonce, recipient);
    let v1 = s1.vault_of(admin);
    let v2 = Vault { treasury_lamports: (v1.treasury_lamports - amount) as u64, ..v1 };
    let child2 = ChildAccount { total_paid_out: (child0.total_paid_out + amount) as u64, ..child0 };
    let payout2 = PendingPayout { executed: true, ..payout };
    assert(s2.vaults == s1.vaults.update(vi, v2));
    assert(s2.children == s1.children.update(ci, child2));
    assert(s2.payouts == s1.payouts.update(pi, payout2));
    s2.lemma_vault_idx_is(admin, vi);
    s2.lemma_child_idx_is(admin, depositor, ci);
    s2.lemma_payout_idx_is(admin, depositor, nonce, pi);
}

/// The supply cap is a strict boundary: a purchase whose computed token
/// amount brings the minted total exactly to `max_supply` succeeds, and one
/// whose computed amount would push past it fails with `ExceedsMaxSupply`
/// and changes nothing.
pub proof fn lemma_buy_val_cap_boundary(s: LedgerView, vault_admin: u64, user: u64, sol_amount: u64)
    requires
        s.wf(),
        s.has_vault(vault_admin),
        s.vault_of(vault_admin).val_mint_initialized,
        sol_amount > 0,
        s.vault_of(vault_admin).treasury_lamports + sol_amount <= u64::MAX,
    ensures
        ({
            let v = s.vault_of(vault_admin);
            let val = val_amount_spec(
                sol_amount,
                v.val_per_sol_numerator,
                v.val_per_sol_denominator,
            );
            let (post, r) = s.apply_buy_val(vault_admin, user, sol_amount);
            &&& (v.total_minted + val == v.max_supply ==> r is Ok && post.vault_of(
                vault_admin,
            ).total_minted == v.max_supply)
            &&& (v.total_minted + val > v.max_supply && v.total_minted + val <= u64::MAX ==> r
                == Err::<crate::events::ValPurchased, VaultError>(VaultError::ExceedsMaxSupply)
                && post == s)
        }),
{
    let v = s.vault_of(vault_admin);
    let val = val_amount_spec(sol_amount, v.val_per_sol_numerator, v.val_per_sol_denominator);
    let (post, r) = s.apply_buy_val(vault_admin, user, sol_amount);
    let vi = s.vault_idx(vault_admin);
    assert(0 <= vi < s.vaults.len() && s.vaults[vi].admin_authority == vault_admin);
    if v.total_minted + val == v.max_supply {
        let v2 = Vault {
            treasury_lamports: (v.treasury_lamports + sol_amount) as u64,
            total_minted: (v.total_minted + val) as u64,
            ..v
        };
        s.lemma_vault_update_wf(vi, v2);
        post.lemma_vault_idx_is(vault_admin, vi);
    }
}

} // verus!
