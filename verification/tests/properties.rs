use vault_project::errors::VaultError;
use vault_project::ledger::Ledger;

const ADMIN: u64 = 1;
const DEST: u64 = 2;
const DEPOSITOR: u64 = 3;
const BUYER: u64 = 4;

#[test]
fn child_payouts_never_exceed_deposits_across_a_session() {
    let mut l = Ledger::new();
    l.initialize(ADMIN, DEST, 1, 1, 1000, 0, 0, 0).expect("vault creation");
    l.deposit_and_auto_register(ADMIN, DEPOSITOR, 300, 0, 0).expect("deposit");
    let check = |l: &Ledger| {
        let c = l.get_child(ADMIN, DEPOSITOR).expect("child exists");
        assert!(c.total_paid_out <= c.total_deposited);
    };
    check(&l);
    l.admin_request_payout(ADMIN, DEPOSITOR, 300, 1, 0, 0).expect("request");
    check(&l);
    l.admin_execute_payout(ADMIN, DEPOSITOR, 1, DEPOSITOR).expect("execution");
    check(&l);
    l.deposit_and_auto_register(ADMIN, DEPOSITOR, 50, 0, 0).expect("deposit");
    check(&l);
    l.admin_request_payout(ADMIN, DEPOSITOR, 50, 2, 0, 0).expect("request");
    l.admin_execute_payout(ADMIN, DEPOSITOR, 2, DEPOSITOR).expect("execution");
    check(&l);
    let c = l.get_child(ADMIN, DEPOSITOR).unwrap();
    assert_eq!(c.total_deposited, 350);
    assert_eq!(c.total_paid_out, 350);
}

#[test]
fn minted_total_never_exceeds_the_cap_across_a_session() {
    let mut l = Ledger::new();
    l.initialize(ADMIN, DEST, 1, 1, 100, 0, 0, 0).expect("vault creation");
    l.initialize_val_mint(ADMIN).expect("mint creation");
    let check = |l: &Ledger| {
        let v = l.get_vault(ADMIN).expect("vault exists");
        assert!(v.total_minted <= v.max_supply);
    };
    check(&l);
    l.buy_val(ADMIN, BUYER, 60).expect("purchase");
    check(&l);
    assert_eq!(l.buy_val(ADMIN, BUYER, 41), Err(VaultError::ExceedsMaxSupply));
    check(&l);
    l.buy_val(ADMIN, BUYER, 40).expect("purchase");
    check(&l);
    assert_eq!(l.get_vault(ADMIN).unwrap().total_minted, 100);
}

#[test]
fn initializing_the_same_admin_twice_fails_without_overwriting() {
    let mut l = Ledger::new();
    l.initialize(ADMIN, DEST, 2, 1, 1000, 5, 0, 0).expect("vault creation");
    l.deposit(ADMIN, DEPOSITOR, 50).expect("deposit");
    let before = l.get_vault(ADMIN).unwrap();
    assert_eq!(
        l.initialize(ADMIN, 99, 7, 3, 5, 6, 1, 1),
        Err(VaultError::AccountAlreadyExists)
    );
    assert_eq!(l.get_vault(ADMIN).unwrap(), before);
}

#[test]
fn buy_val_boundary_reaches_the_cap_exactly_then_fails() {
    let mut l = Ledger::new();
    // rate 1/1: one token per unit sent
    l.initialize(ADMIN, DEST, 1, 1, 1000, 0, 0, 0).expect("vault creation");
    l.initialize_val_mint(ADMIN).expect("mint creation");
    l.buy_val(ADMIN, BUYER, 999).expect("purchase");
    // this purchase lands exactly on the cap
    let e = l.buy_val(ADMIN, BUYER, 1).expect("purchase at the boundary");
    assert_eq!(e.total_minted, 1000);
    // one unit more would pass the cap
    assert_eq!(l.buy_val(ADMIN, BUYER, 1), Err(VaultError::ExceedsMaxSupply));
    assert_eq!(l.get_vault(ADMIN).unwrap().total_minted, 1000);
}

#[test]
fn scenario_rate_two_to_one_with_a_full_payout_cycle() {
    let mut l = Ledger::new();
    l.initialize(ADMIN, DEST, 2, 1, 1000, 0, 0, 0).expect("vault creation");
    l.initialize_val_mint(ADMIN).expect("mint creation");
    // a buyer sends 100 units and receives 200 tokens
    let e = l.buy_val(ADMIN, BUYER, 100).expect("purchase");
    assert_eq!(e.val_amount, 200);
    assert_eq!(l.get_vault(ADMIN).unwrap().total_minted, 200);
    // a depositor contributes 500
    l.deposit_and_auto_register(ADMIN, DEPOSITOR, 500, 0, 0).expect("deposit");
    assert_eq!(l.get_child(ADMIN, DEPOSITOR).unwrap().total_deposited, 500);
    // the full allowance is approved and settled
    l.admin_request_payout(ADMIN, DEPOSITOR, 500, 1, 0, 0).expect("request");
    l.admin_execute_payout(ADMIN, DEPOSITOR, 1, DEPOSITOR).expect("execution");
    // the allowance is spent: one more unit cannot be approved
    assert_eq!(
        l.admin_request_payout(ADMIN, DEPOSITOR, 1, 2, 0, 0),
        Err(VaultError::ExceedsAllowedPayout)
    );
}

#[test]
fn exchange_computation_floors_the_quotient() {
    let mut l = Ledger::new();
    // rate 3/2 on 7 units: floor(7 * 3 / 2) = 10
    l.initialize(ADMIN, DEST, 3, 2, 1000, 0, 0, 0).expect("vault creation");
    l.initialize_val_mint(ADMIN).expect("mint creation");
    let e = l.buy_val(ADMIN, BUYER, 7).expect("purchase");
    assert_eq!(e.val_amount, 10);
    assert_eq!(e.total_minted, 10);
}

#[test]
fn operations_on_an_empty_ledger_are_refused() {
    let mut l = Ledger::new();
    assert_eq!(l.admin_withdraw(ADMIN, 1), Err(VaultError::Unauthorized));
    assert_eq!(l.withdraw(ADMIN, 1), Err(VaultError::Unauthorized));
    assert_eq!(l.deposit(ADMIN, DEPOSITOR, 1), Err(VaultError::Unauthorized));
    assert_eq!(l.buy_val(ADMIN, BUYER, 1), Err(VaultError::Unauthorized));
    assert_eq!(l.initialize_val_mint(ADMIN), Err(VaultError::Unauthorized));
    assert_eq!(l.update_exchange_rate(ADMIN, 1, 1), Err(VaultError::Unauthorized));
    assert_eq!(
        l.admin_request_payout(ADMIN, DEPOSITOR, 1, 1, 0, 0),
        Err(VaultError::Unauthorized)
    );
    assert_eq!(
        l.admin_execute_payout(ADMIN, DEPOSITOR, 1, DEPOSITOR),
        Err(VaultError::Unauthorized)
    );
    assert!(l.get_vault(ADMIN).is_none());
    assert!(l.get_child(ADMIN, DEPOSITOR).is_none());
    assert!(l.get_payout(ADMIN, DEPOSITOR, 1).is_none());
}
