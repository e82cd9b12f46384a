//! Scenario tests: the observable behaviour of the ledger on concrete inputs —
//! conservation across a call sequence, no-ops on declined operations,
//! default-zero reads, non-additive re-approval, and the notification log.

use erc20::{AccountId, Erc20};

fn acct(tag: u8) -> AccountId {
    AccountId::from([tag; 32])
}

#[test]
fn declined_transfer_changes_nothing() {
    let a = acct(1);
    let b = acct(0);
    let mut contract = Erc20::new(a, 100);
    assert!(contract.transfer(a, b, 10));
    assert_eq!(contract.balance_of(a), 90);
    assert_eq!(contract.balance_of(b), 10);
    assert!(!contract.transfer(a, b, 1000));
    assert_eq!(contract.balance_of(a), 90);
    assert_eq!(contract.balance_of(b), 10);
}

#[test]
fn self_approval_and_delegated_transfer() {
    let a = acct(1);
    let b = acct(2);
    let mut contract = Erc20::new(a, 100);
    contract.approve(a, a, 20);
    contract.transfer_from(a, a, b, 10);
    assert_eq!(contract.balance_of(b), 10);
    assert_eq!(contract.allowance(a, a), 10);
}

#[test]
fn insufficient_allowance_is_a_silent_noop() {
    let owner = acct(1);
    let spender = acct(2);
    let b = acct(3);
    let mut contract = Erc20::new(owner, 100);
    contract.approve(owner, spender, 20);
    contract.transfer_from(spender, owner, b, 25);
    assert_eq!(contract.balance_of(owner), 100);
    assert_eq!(contract.balance_of(b), 0);
    assert_eq!(contract.allowance(owner, spender), 20);
}

#[test]
fn insufficient_balance_leaves_allowance_untouched() {
    let a = acct(1);
    let owner = acct(2);
    let spender = acct(3);
    let b = acct(4);
    let mut contract = Erc20::new(a, 100);
    assert!(contract.transfer(a, owner, 3));
    contract.approve(owner, spender, 5);
    contract.transfer_from(spender, owner, b, 5);
    assert_eq!(contract.balance_of(owner), 3);
    assert_eq!(contract.balance_of(b), 0);
    assert_eq!(contract.allowance(owner, spender), 5);
}

#[test]
fn conservation_across_a_call_sequence() {
    let a = acct(1);
    let b = acct(2);
    let c = acct(3);
    let mut contract = Erc20::new(a, 1000);
    assert!(contract.transfer(a, b, 300));
    assert!(contract.transfer(b, c, 100));
    contract.approve(a, c, 250);
    contract.transfer_from(c, a, c, 250);
    assert!(!contract.transfer(b, a, 999));
    let total = contract.balance_of(a) + contract.balance_of(b) + contract.balance_of(c);
    assert_eq!(total, 1000);
    assert_eq!(contract.total_supply(), 1000);
}

#[test]
fn default_zero_lookups() {
    let a = acct(1);
    let contract = Erc20::new(a, 50);
    assert_eq!(contract.balance_of(acct(9)), 0);
    assert_eq!(contract.allowance(acct(8), acct(9)), 0);
    assert_eq!(contract.allowance(a, acct(9)), 0);
}

#[test]
fn reapproval_keeps_only_the_latest_amount() {
    let owner = acct(1);
    let spender = acct(2);
    let mut contract = Erc20::new(owner, 100);
    contract.approve(owner, spender, 20);
    contract.approve(owner, spender, 7);
    assert_eq!(contract.allowance(owner, spender), 7);
    contract.approve(owner, spender, 0);
    assert_eq!(contract.allowance(owner, spender), 0);
}

#[test]
fn successful_transfer_emits_one_notification() {
    let a = acct(1);
    let b = acct(2);
    let mut contract = Erc20::new(a, 100);
    assert!(contract.transfer(a, b, 10));
    assert!(!contract.transfer(a, b, 1000));
    let events = contract.events();
    assert_eq!(events.len(), 1);
    assert!(events[0].from == a);
    assert!(events[0].to == b);
    assert_eq!(events[0].amount, 10);
}

#[test]
fn zero_amount_and_self_transfer_follow_the_same_steps() {
    let a = acct(1);
    let b = acct(2);
    let mut contract = Erc20::new(a, 100);
    assert!(contract.transfer(a, b, 0));
    assert_eq!(contract.balance_of(a), 100);
    assert_eq!(contract.balance_of(b), 0);
    assert!(contract.transfer(a, a, 40));
    assert_eq!(contract.balance_of(a), 100);
    assert_eq!(contract.events().len(), 2);
}

#[test]
fn default_constructor_fixes_a_zero_supply() {
    let a = acct(1);
    let contract = Erc20::default(a);
    assert_eq!(contract.total_supply(), 0);
    assert_eq!(contract.balance_of(a), 0);
}

#[test]
fn largest_supply_is_handled() {
    let a = acct(1);
    let b = acct(2);
    let mut contract = Erc20::new(a, u128::MAX);
    assert!(contract.transfer(a, b, u128::MAX));
    assert_eq!(contract.balance_of(a), 0);
    assert_eq!(contract.balance_of(b), u128::MAX);
    assert!(!contract.transfer(a, b, 1));
}
