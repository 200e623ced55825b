use vault_project::errors::VaultError;
use vault_project::ledger::Ledger;

const ADMIN: u64 = 1;
const DEST: u64 = 2;
const DEPOSITOR: u64 = 3;

fn funded_vault(deposit: u64) -> Ledger {
    let mut l = Ledger::new();
    l.initialize(ADMIN, DEST, 1, 1, 1000, 0, 0, 0).expect("vault creation");
    l.deposit_and_auto_register(ADMIN, DEPOSITOR, deposit, 0, 0).expect("deposit");
    l
}

#[test]
fn request_payout_records_the_approval() {
    let mut l = funded_vault(500);
    let e = l.admin_request_payout(ADMIN, DEPOSITOR, 200, 1, 10, 0).expect("request");
    assert_eq!(e.admin, ADMIN);
    assert_eq!(e.child, DEPOSITOR);
    assert_eq!(e.payout, 1);
    assert_eq!(e.amount, 200);
    let p = l.get_payout(ADMIN, DEPOSITOR, 1).expect("payout exists");
    assert_eq!(p.amount, 200);
    assert_eq!(p.requested_at, 10);
    assert!(!p.executed);
    // requesting alone moves nothing
    assert_eq!(l.get_child(ADMIN, DEPOSITOR).unwrap().total_paid_out, 0);
    assert_eq!(l.get_vault(ADMIN).unwrap().treasury_lamports, 500);
}

#[test]
fn request_payout_rejects_zero_and_excess_amounts() {
    let mut l = funded_vault(500);
    assert_eq!(
        l.admin_request_payout(ADMIN, DEPOSITOR, 0, 1, 10, 0),
        Err(VaultError::InvalidAmount)
    );
    assert_eq!(
        l.admin_request_payout(ADMIN, DEPOSITOR, 501, 1, 10, 0),
        Err(VaultError::ExceedsAllowedPayout)
    );
    assert!(l.get_payout(ADMIN, DEPOSITOR, 1).is_none());
}

#[test]
fn request_payout_is_admin_only_and_needs_the_child() {
    let mut l = funded_vault(500);
    assert_eq!(
        l.admin_request_payout(DEPOSITOR, DEPOSITOR, 100, 1, 10, 0),
        Err(VaultError::Unauthorized)
    );
    assert_eq!(
        l.admin_request_payout(ADMIN, DEST, 100, 1, 10, 0),
        Err(VaultError::Unauthorized)
    );
}

#[test]
fn reusing_a_nonce_collides() {
    let mut l = funded_vault(500);
    l.admin_request_payout(ADMIN, DEPOSITOR, 100, 7, 10, 0).expect("request");
    assert_eq!(
        l.admin_request_payout(ADMIN, DEPOSITOR, 50, 7, 11, 0),
        Err(VaultError::AccountAlreadyExists)
    );
    // the original approval is untouched
    assert_eq!(l.get_payout(ADMIN, DEPOSITOR, 7).unwrap().amount, 100);
}

#[test]
fn payout_round_trip_transfers_exactly_once() {
    let mut l = funded_vault(500);
    l.admin_request_payout(ADMIN, DEPOSITOR, 200, 1, 10, 0).expect("request");
    let e = l.admin_execute_payout(ADMIN, DEPOSITOR, 1, DEPOSITOR).expect("execution");
    assert_eq!(e.recipient, DEPOSITOR);
    assert_eq!(e.amount, 200);
    assert_eq!(e.child_total_paid_out, 200);
    let v = l.get_vault(ADMIN).unwrap();
    let c = l.get_child(ADMIN, DEPOSITOR).unwrap();
    let p = l.get_payout(ADMIN, DEPOSITOR, 1).unwrap();
    assert_eq!(v.treasury_lamports, 300);
    assert_eq!(c.total_paid_out, 200);
    assert!(p.executed);
    // the second settlement of the same approval fails and moves nothing
    assert_eq!(
        l.admin_execute_payout(ADMIN, DEPOSITOR, 1, DEPOSITOR),
        Err(VaultError::AlreadyExecuted)
    );
    assert_eq!(l.get_vault(ADMIN).unwrap().treasury_lamports, 300);
    assert_eq!(l.get_child(ADMIN, DEPOSITOR).unwrap().total_paid_out, 200);
}

#[test]
fn execution_settles_only_to_the_depositor() {
    let mut l = funded_vault(500);
    l.admin_request_payout(ADMIN, DEPOSITOR, 200, 1, 10, 0).expect("request");
    assert_eq!(
        l.admin_execute_payout(ADMIN, DEPOSITOR, 1, DEST),
        Err(VaultError::Unauthorized)
    );
    assert_eq!(l.get_child(ADMIN, DEPOSITOR).unwrap().total_paid_out, 0);
}

#[test]
fn execution_of_an_unknown_payout_is_refused() {
    let mut l = funded_vault(500);
    assert_eq!(
        l.admin_execute_payout(ADMIN, DEPOSITOR, 9, DEPOSITOR),
        Err(VaultError::Unauthorized)
    );
}

#[test]
fn requests_are_relaxed_but_execution_is_strict() {
    // Approvals are checked against settled totals only, so the allowance
    // may be over-committed across several open requests; execution
    // re-validates, and at most one over-committed request settles.
    let mut l = funded_vault(500);
    l.admin_request_payout(ADMIN, DEPOSITOR, 500, 1, 10, 0).expect("request");
    l.admin_request_payout(ADMIN, DEPOSITOR, 500, 2, 10, 0).expect("request");
    l.admin_execute_payout(ADMIN, DEPOSITOR, 1, DEPOSITOR).expect("execution");
    assert_eq!(
        l.admin_execute_payout(ADMIN, DEPOSITOR, 2, DEPOSITOR),
        Err(VaultError::ExceedsAllowedPayout)
    );
    assert_eq!(l.get_child(ADMIN, DEPOSITOR).unwrap().total_paid_out, 500);
}

#[test]
fn execution_rechecks_the_allowance_at_settlement_time() {
    let mut l = funded_vault(500);
    // approved while the full allowance stood
    l.admin_request_payout(ADMIN, DEPOSITOR, 400, 1, 10, 0).expect("request");
    // another payout settles first and shrinks the allowance
    l.admin_request_payout(ADMIN, DEPOSITOR, 300, 2, 10, 0).expect("request");
    l.admin_execute_payout(ADMIN, DEPOSITOR, 2, DEPOSITOR).expect("execution");
    // the stale approval no longer fits the remaining 200
    assert_eq!(
        l.admin_execute_payout(ADMIN, DEPOSITOR, 1, DEPOSITOR),
        Err(VaultError::ExceedsAllowedPayout)
    );
}

#[test]
fn execution_needs_a_covering_treasury() {
    let mut l = funded_vault(500);
    l.admin_request_payout(ADMIN, DEPOSITOR, 400, 1, 10, 0).expect("request");
    // the admin drains the treasury below the approved amount
    l.admin_withdraw(ADMIN, 200).expect("withdrawal");
    assert_eq!(
        l.admin_execute_payout(ADMIN, DEPOSITOR, 1, DEPOSITOR),
        Err(VaultError::InvalidAmount)
    );
    // with the treasury refilled, the approval settles
    l.deposit(ADMIN, DEST, 100).expect("deposit");
    l.admin_execute_payout(ADMIN, DEPOSITOR, 1, DEPOSITOR).expect("execution");
    assert_eq!(l.get_vault(ADMIN).unwrap().treasury_lamports, 0);
}
