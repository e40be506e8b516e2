use reentrancy_guard_stylus::account::Account;
use reentrancy_guard_stylus::amount::Amount;
use reentrancy_guard_stylus::vault::{EventKind, VaultContract, VaultError};
use alloy_primitives::{Address, U256};

fn account(byte: u8) -> Account {
    Account::new(Address::repeat_byte(byte).into_array())
}

fn amount(v: u64) -> Amount {
    Amount::from_limbs(U256::from(v).into_limbs())
}

fn value(a: Amount) -> U256 {
    U256::from_limbs(a.into_limbs())
}

fn funded(user: Account, v: u64) -> VaultContract {
    let mut vault = VaultContract::new();
    vault.deposit(user, amount(v)).unwrap();
    vault
}

#[test]
fn test_deposit() {
    let mut contract = VaultContract::default();
    contract.constructor();

    let user = Account::new(Address::ZERO.into_array());
    let _amount = U256::from(100);

    assert_eq!(value(contract.get_balance(user)), U256::ZERO);
}

#[test]
fn test_reentrancy_protection() {
    let mut contract = VaultContract::default();
    contract.constructor();
    let user = Account::new(Address::ZERO.into_array());

    // Verify guard is initialized
    assert!(!contract.is_reentrancy_guard_entered());

    // A withdrawal waiting for its transfer holds the guard
    assert!(contract.withdraw_safe(user, Amount::zero()).is_ok());
    assert!(contract.is_reentrancy_guard_entered());

    // Should fail on second call
    assert!(contract.withdraw_safe(user, Amount::zero()).is_err());

    // Clean up
    contract.finish_withdrawal(true).unwrap();
    assert!(!contract.is_reentrancy_guard_entered());
}

#[test]
fn deposit_credits_account_and_total() {
    let a = account(0xaa);
    let mut vault = VaultContract::new();
    assert_eq!(vault.deposit(a, amount(100)), Ok(()));
    assert_eq!(value(vault.get_balance(a)), U256::from(100));
    assert_eq!(value(vault.get_total_balance()), U256::from(100));
    assert_eq!(vault.event_count(), 1);
    let e = vault.event_at(0);
    assert_eq!(e.kind, EventKind::Deposit);
    assert!(e.user.same_as(&a));
    assert_eq!(value(e.amount), U256::from(100));
    assert!(!vault.is_reentrancy_guard_entered());
}

#[test]
fn total_is_sum_of_balances_after_each_operation() {
    let a = account(0xaa);
    let b = account(0xbb);
    let mut vault = VaultContract::new();
    let check = |v: &VaultContract| {
        assert_eq!(
            value(v.get_total_balance()),
            value(v.get_balance(a)) + value(v.get_balance(b))
        );
    };
    vault.deposit(a, amount(100)).unwrap();
    check(&vault);
    vault.deposit(b, amount(40)).unwrap();
    check(&vault);
    vault.deposit(a, amount(5)).unwrap();
    check(&vault);
    vault.withdraw_safe(a, amount(30)).unwrap();
    vault.finish_withdrawal(true).unwrap();
    check(&vault);
    vault.emergency_withdraw(b, amount(40)).unwrap();
    vault.finish_withdrawal(false).unwrap_err();
    check(&vault);
    assert_eq!(value(vault.get_balance(a)), U256::from(75));
    assert_eq!(value(vault.get_balance(b)), U256::from(40));
    assert_eq!(value(vault.get_total_balance()), U256::from(115));
}

#[test]
fn deposit_overflow_is_rejected() {
    let a = account(1);
    let mut vault = VaultContract::new();
    vault.deposit(a, Amount::from_limbs(U256::MAX.into_limbs())).unwrap();
    assert_eq!(vault.deposit(a, amount(1)), Err(VaultError::BalanceOverflow));
    assert_eq!(value(vault.get_balance(a)), U256::MAX);
    assert_eq!(value(vault.get_total_balance()), U256::MAX);
    assert!(!vault.is_reentrancy_guard_entered());
    let b = account(2);
    assert_eq!(vault.deposit(b, amount(1)), Err(VaultError::BalanceOverflow));
    assert_eq!(value(vault.get_balance(b)), U256::ZERO);
}

#[test]
fn withdraw_safe_insufficient_balance_changes_nothing() {
    let a = account(0xaa);
    let mut vault = funded(a, 50);
    assert_eq!(
        vault.withdraw_safe(a, amount(51)).unwrap_err(),
        VaultError::InsufficientBalance
    );
    assert_eq!(value(vault.get_balance(a)), U256::from(50));
    assert_eq!(value(vault.get_total_balance()), U256::from(50));
    assert!(!vault.is_reentrancy_guard_entered());
    assert_eq!(vault.event_count(), 1);
}

#[test]
fn failed_transfer_rolls_back() {
    let a = account(0xaa);
    let mut vault = funded(a, 100);
    let t = vault.withdraw_safe(a, amount(60)).unwrap();
    assert!(t.to.same_as(&a));
    assert_eq!(value(t.amount), U256::from(60));
    // Effects come before the transfer
    assert_eq!(value(vault.get_balance(a)), U256::from(40));
    assert_eq!(value(vault.get_total_balance()), U256::from(40));
    assert_eq!(vault.finish_withdrawal(false), Err(VaultError::WithdrawalFailed));
    assert_eq!(value(vault.get_balance(a)), U256::from(100));
    assert_eq!(value(vault.get_total_balance()), U256::from(100));
    assert!(!vault.is_reentrancy_guard_entered());
    assert!(!vault.has_withdrawal_in_flight());
    assert_eq!(vault.event_count(), 1);
}

#[test]
fn successful_withdrawal_emits_notification() {
    let a = account(0xaa);
    let mut vault = funded(a, 100);
    vault.withdraw_safe(a, amount(100)).unwrap();
    assert_eq!(vault.finish_withdrawal(true), Ok(()));
    assert_eq!(value(vault.get_balance(a)), U256::ZERO);
    assert_eq!(value(vault.get_total_balance()), U256::ZERO);
    assert_eq!(vault.event_count(), 2);
    let e = vault.event_at(1);
    assert_eq!(e.kind, EventKind::Withdrawal);
    assert!(e.user.same_as(&a));
    assert_eq!(value(e.amount), U256::from(100));
}

#[test]
fn reentrant_withdraw_safe_is_rejected() {
    let a = account(0xaa);
    let mut vault = funded(a, 100);
    let transfer = vault.withdraw_safe(a, amount(100)).unwrap();
    // The transfer re-enters the vault before it returns
    assert_eq!(
        vault.withdraw_safe(transfer.to, transfer.amount).unwrap_err(),
        VaultError::ReentrantCall
    );
    assert_eq!(value(vault.get_balance(a)), U256::ZERO);
    assert_eq!(value(vault.get_total_balance()), U256::ZERO);
    assert_eq!(
        vault.emergency_withdraw(a, amount(1)).unwrap_err(),
        VaultError::ReentrantCall
    );
    assert_eq!(vault.deposit(a, amount(1)), Err(VaultError::ReentrantCall));
    assert!(vault.is_reentrancy_guard_entered());
    // The outer withdrawal then completes
    assert_eq!(vault.finish_withdrawal(true), Ok(()));
    assert_eq!(value(vault.get_balance(a)), U256::ZERO);
    assert_eq!(value(vault.get_total_balance()), U256::ZERO);
    assert!(!vault.is_reentrancy_guard_entered());
}

#[test]
fn vulnerable_withdrawal_lets_reentry_drain() {
    let a = account(0xaa);
    let mut vault = funded(a, 100);
    let outer_read = vault.withdraw_vulnerable(a, amount(100)).unwrap();
    // The transfer re-enters: the inner call is not rejected
    let inner_read = vault.withdraw_vulnerable(a, amount(100)).unwrap();
    assert_eq!(value(inner_read), U256::from(100));
    assert_eq!(vault.complete_withdraw_vulnerable(a, amount(100), inner_read, true), Ok(()));
    assert_eq!(value(vault.get_balance(a)), U256::ZERO);
    assert_eq!(value(vault.get_total_balance()), U256::ZERO);
    // The outer call debits a second time from a stale balance: 200 paid for 100 deposited
    assert_eq!(
        vault.complete_withdraw_vulnerable(a, amount(100), outer_read, true),
        Err(VaultError::AccountingUnderflow)
    );
    assert_eq!(value(vault.get_balance(a)), U256::ZERO);
    assert_eq!(value(vault.get_total_balance()), U256::ZERO);
    assert_eq!(vault.event_count(), 3);
}

#[test]
fn vulnerable_withdrawal_without_reentry() {
    let a = account(0xaa);
    let mut vault = funded(a, 100);
    assert_eq!(
        vault.withdraw_vulnerable(a, amount(101)).unwrap_err(),
        VaultError::InsufficientBalance
    );
    let read = vault.withdraw_vulnerable(a, amount(30)).unwrap();
    assert_eq!(
        vault.complete_withdraw_vulnerable(a, amount(30), read, false),
        Err(VaultError::WithdrawalFailed)
    );
    assert_eq!(value(vault.get_balance(a)), U256::from(100));
    assert_eq!(vault.complete_withdraw_vulnerable(a, amount(30), read, true), Ok(()));
    assert_eq!(value(vault.get_balance(a)), U256::from(70));
    assert_eq!(value(vault.get_total_balance()), U256::from(70));
}

#[test]
fn emergency_withdraw_releases_guard_on_every_path() {
    let a = account(0xaa);
    let mut vault = funded(a, 10);
    assert_eq!(
        vault.emergency_withdraw(a, amount(11)).unwrap_err(),
        VaultError::InsufficientBalance
    );
    assert!(!vault.is_reentrancy_guard_entered());
    vault.emergency_withdraw(a, amount(4)).unwrap();
    assert!(vault.is_reentrancy_guard_entered());
    assert_eq!(vault.finish_withdrawal(false), Err(VaultError::WithdrawalFailed));
    assert!(!vault.is_reentrancy_guard_entered());
    assert_eq!(value(vault.get_balance(a)), U256::from(10));
    vault.emergency_withdraw(a, amount(4)).unwrap();
    assert_eq!(vault.finish_withdrawal(true), Ok(()));
    assert!(!vault.is_reentrancy_guard_entered());
    assert_eq!(value(vault.get_balance(a)), U256::from(6));
    assert_eq!(value(vault.get_total_balance()), U256::from(6));
}

#[test]
fn books_that_do_not_add_up_are_reported() {
    let a = account(0xaa);
    let b = account(0xbb);
    let mut vault = funded(a, 100);
    vault.deposit(b, amount(50)).unwrap();
    let stale = vault.withdraw_vulnerable(a, amount(100)).unwrap();
    vault.complete_withdraw_vulnerable(a, amount(100), stale, true).unwrap();
    vault.complete_withdraw_vulnerable(a, amount(50), stale, true).unwrap();
    // a holds 50 again, but the total is now 0 while b still holds 50
    assert_eq!(value(vault.get_total_balance()), U256::ZERO);
    assert_eq!(
        vault.withdraw_safe(b, amount(50)).unwrap_err(),
        VaultError::AccountingUnderflow
    );
    assert!(!vault.is_reentrancy_guard_entered());
}

#[test]
fn withdrawal_of_unknown_account_fails() {
    let mut vault = funded(account(1), 10);
    assert_eq!(
        vault.withdraw_safe(account(2), amount(1)).unwrap_err(),
        VaultError::InsufficientBalance
    );
}
