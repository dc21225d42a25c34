use erc20::account::{account_eq, AccountId};
use erc20::allowance::AllowanceTable;
use erc20::erc20::{Approval, Erc20, Error, Transfer};
use erc20::ledger::Ledger;

fn acct(n: u8) -> AccountId {
    AccountId([n; 32])
}

#[test]
fn scenario_create_transfer_approve_spend() {
    let (a, b, c, d) = (acct(1), acct(2), acct(3), acct(4));
    let mut t = Erc20::new(a, 1000);
    assert_eq!(t.balance_of(a), 1000);
    assert_eq!(t.get_total_supply(), 1000);

    assert_eq!(
        t.transfer(a, b, 300),
        Ok(Transfer { from: Some(a), to: Some(b), value: 300 })
    );
    assert_eq!(t.balance_of(a), 700);
    assert_eq!(t.balance_of(b), 300);

    assert_eq!(
        t.approve(a, c, 100),
        Ok(Approval { owner: a, spender: c, max_spending: 100 })
    );
    assert_eq!(t.allowance_of(a, c), 100);

    assert_eq!(
        t.transfer_with_allowance(c, a, d, 60),
        Ok(Transfer { from: Some(a), to: Some(d), value: 60 })
    );
    assert_eq!(t.balance_of(a), 640);
    assert_eq!(t.balance_of(d), 60);
    assert_eq!(t.allowance_of(a, c), 40);

    assert_eq!(
        t.transfer_with_allowance(c, a, d, 50),
        Err(Error::InsufficientAllowance)
    );
    assert_eq!(t.balance_of(a), 640);
    assert_eq!(t.balance_of(d), 60);
    assert_eq!(t.allowance_of(a, c), 40);
}

#[test]
fn new_gives_everything_to_creator() {
    let t = Erc20::new(acct(7), 55);
    assert_eq!(t.balance_of(acct(7)), 55);
    assert_eq!(t.balance_of(acct(8)), 0);
    assert_eq!(t.allowance_of(acct(7), acct(8)), 0);
    assert_eq!(t.get_total_supply(), 55);
}

#[test]
fn transfer_over_balance_is_refused_and_changes_nothing() {
    let (a, b) = (acct(1), acct(2));
    let mut t = Erc20::new(a, 10);
    assert_eq!(t.transfer(a, b, 11), Err(Error::InsufficientBalance));
    assert_eq!(t.balance_of(a), 10);
    assert_eq!(t.balance_of(b), 0);
    assert_eq!(t.transfer(b, a, 1), Err(Error::InsufficientBalance));
    assert_eq!(t.balance_of(a), 10);
    assert_eq!(t.balance_of(b), 0);
}

#[test]
fn transfer_of_whole_balance_and_back() {
    let (a, b) = (acct(1), acct(2));
    let mut t = Erc20::new(a, 10);
    assert!(t.transfer(a, b, 10).is_ok());
    assert_eq!(t.balance_of(a), 0);
    assert_eq!(t.balance_of(b), 10);
    assert!(t.transfer(b, a, 4).is_ok());
    assert_eq!(t.balance_of(a), 4);
    assert_eq!(t.balance_of(b), 6);
    assert_eq!(t.get_total_supply(), 10);
}

#[test]
fn self_transfer_changes_nothing() {
    let a = acct(1);
    let mut t = Erc20::new(a, 10);
    assert!(t.transfer(a, a, 10).is_ok());
    assert_eq!(t.balance_of(a), 10);
    assert_eq!(t.transfer(a, a, 11), Err(Error::InsufficientBalance));
    assert_eq!(t.balance_of(a), 10);
}

#[test]
fn transfer_of_zero_succeeds_even_from_empty_account() {
    let (a, b) = (acct(1), acct(2));
    let mut t = Erc20::new(a, 10);
    assert!(t.transfer(b, a, 0).is_ok());
    assert_eq!(t.balance_of(a), 10);
    assert_eq!(t.balance_of(b), 0);
}

#[test]
fn largest_supply_moves_without_overflow() {
    let (a, b) = (acct(1), acct(2));
    let mut t = Erc20::new(a, u128::MAX);
    assert!(t.transfer(a, b, u128::MAX - 1).is_ok());
    assert!(t.transfer(a, b, 1).is_ok());
    assert_eq!(t.balance_of(a), 0);
    assert_eq!(t.balance_of(b), u128::MAX);
}

#[test]
fn approve_replaces_rather_than_adds() {
    let (a, s) = (acct(1), acct(2));
    let mut t = Erc20::new(a, 10);
    assert!(t.approve(a, s, 100).is_ok());
    assert!(t.approve(a, s, 30).is_ok());
    assert_eq!(t.allowance_of(a, s), 30);
    assert!(t.approve(a, s, 0).is_ok());
    assert_eq!(t.allowance_of(a, s), 0);
}

#[test]
fn approve_may_exceed_balance_and_is_per_pair() {
    let (a, s, u) = (acct(1), acct(2), acct(3));
    let mut t = Erc20::new(a, 10);
    assert!(t.approve(a, s, 1000).is_ok());
    assert_eq!(t.allowance_of(a, s), 1000);
    assert_eq!(t.allowance_of(s, a), 0);
    assert_eq!(t.allowance_of(a, u), 0);
    assert_eq!(t.balance_of(a), 10);
}

#[test]
fn spend_over_allowance_is_refused_and_changes_nothing() {
    let (a, s, to) = (acct(1), acct(2), acct(3));
    let mut t = Erc20::new(a, 100);
    assert!(t.approve(a, s, 5).is_ok());
    assert_eq!(t.transfer_with_allowance(s, a, to, 6), Err(Error::InsufficientAllowance));
    assert_eq!(t.allowance_of(a, s), 5);
    assert_eq!(t.balance_of(a), 100);
    assert_eq!(t.balance_of(to), 0);
}

#[test]
fn spend_over_owner_balance_keeps_the_allowance() {
    let (a, s, to) = (acct(1), acct(2), acct(3));
    let mut t = Erc20::new(a, 10);
    assert!(t.approve(a, s, 50).is_ok());
    assert_eq!(t.transfer_with_allowance(s, a, to, 11), Err(Error::InsufficientBalance));
    assert_eq!(t.allowance_of(a, s), 50);
    assert_eq!(t.balance_of(a), 10);
    assert_eq!(t.balance_of(to), 0);
}

#[test]
fn spend_without_any_allowance_is_refused() {
    let (a, s) = (acct(1), acct(2));
    let mut t = Erc20::new(a, 10);
    assert_eq!(t.transfer_with_allowance(s, a, s, 1), Err(Error::InsufficientAllowance));
    assert_eq!(t.balance_of(a), 10);
}

#[test]
fn spending_whole_allowance_leaves_zero() {
    let (a, s, to) = (acct(1), acct(2), acct(3));
    let mut t = Erc20::new(a, 10);
    assert!(t.approve(a, s, 7).is_ok());
    assert!(t.transfer_with_allowance(s, a, to, 7).is_ok());
    assert_eq!(t.allowance_of(a, s), 0);
    assert_eq!(t.balance_of(a), 3);
    assert_eq!(t.balance_of(to), 7);
    assert_eq!(t.transfer_with_allowance(s, a, to, 1), Err(Error::InsufficientAllowance));
}

#[test]
fn balances_always_add_up_to_supply() {
    let accounts = [acct(1), acct(2), acct(3), acct(4)];
    let mut t = Erc20::new(accounts[0], 500);
    let _ = t.transfer(accounts[0], accounts[1], 120);
    let _ = t.transfer(accounts[1], accounts[2], 20);
    let _ = t.approve(accounts[0], accounts[3], 90);
    let _ = t.transfer_with_allowance(accounts[3], accounts[0], accounts[3], 90);
    let _ = t.transfer(accounts[2], accounts[0], 1000);
    let sum: u128 = accounts.iter().map(|a| t.balance_of(*a)).sum();
    assert_eq!(sum, t.get_total_supply());
    assert_eq!(t.balance_of(accounts[3]), 90);
}

#[test]
fn ledger_move_is_all_or_nothing() {
    let (a, b) = (acct(1), acct(2));
    let mut l = Ledger::new(a, 9);
    assert_eq!(l.move_balance(&a, &b, 10), Err(Error::InsufficientBalance));
    assert_eq!(l.balance_of(&a), 9);
    assert_eq!(l.move_balance(&a, &b, 4), Ok(()));
    assert_eq!(l.balance_of(&a), 5);
    assert_eq!(l.balance_of(&b), 4);
    assert_eq!(l.total_supply(), 9);
}

#[test]
fn allowance_table_consume_and_set() {
    let (o, s) = (acct(1), acct(2));
    let mut tbl = AllowanceTable::new();
    assert_eq!(tbl.consume(&o, &s, 1), Err(Error::InsufficientAllowance));
    tbl.set_allowance(&o, &s, 10);
    assert_eq!(tbl.consume(&o, &s, 4), Ok(()));
    assert_eq!(tbl.allowance_of(&o, &s), 6);
    assert_eq!(tbl.consume(&o, &s, 7), Err(Error::InsufficientAllowance));
    assert_eq!(tbl.allowance_of(&o, &s), 6);
}

#[test]
fn accounts_differing_in_last_byte_are_distinct() {
    let a = acct(1);
    let mut bytes = [1u8; 32];
    bytes[31] = 2;
    let b = AccountId(bytes);
    assert!(account_eq(&a, &a));
    assert!(!account_eq(&a, &b));
    let mut t = Erc20::new(a, 3);
    assert!(t.transfer(a, b, 1).is_ok());
    assert_eq!(t.balance_of(a), 2);
    assert_eq!(t.balance_of(b), 1);
}

#[test]
fn stored_state_round_trips() {
    let (a, b, c) = (acct(1), acct(2), acct(3));
    let mut t = Erc20::new(a, 100);
    assert!(t.transfer(a, b, 30).is_ok());
    assert!(t.approve(a, c, 12).is_ok());
    let u = Erc20::from_parts(t.get_total_supply(), t.balances(), t.allowances()).unwrap();
    assert_eq!(u.get_total_supply(), 100);
    assert_eq!(u.balance_of(a), 70);
    assert_eq!(u.balance_of(b), 30);
    assert_eq!(u.balance_of(c), 0);
    assert_eq!(u.allowance_of(a, c), 12);
    assert_eq!(u.allowance_of(c, a), 0);
}

#[test]
fn stored_state_with_wrong_sum_is_rejected() {
    let (a, b) = (acct(1), acct(2));
    assert!(Erc20::from_parts(10, vec![(a, 4), (b, 5)], vec![]).is_none());
    assert!(Erc20::from_parts(9, vec![(a, 4), (b, 5)], vec![]).is_some());
    assert!(Erc20::from_parts(0, vec![], vec![]).is_some());
    assert!(Erc20::from_parts(5, vec![(a, u128::MAX), (b, 6)], vec![]).is_none());
}

#[test]
fn stored_state_with_repeated_keys_is_rejected() {
    let (a, b) = (acct(1), acct(2));
    assert!(Erc20::from_parts(8, vec![(a, 4), (a, 4)], vec![]).is_none());
    assert!(Erc20::from_parts(8, vec![(a, 8)], vec![((a, b), 1), ((a, b), 2)]).is_none());
    assert!(Erc20::from_parts(8, vec![(a, 8)], vec![((a, b), 1), ((b, a), 2)]).is_some());
}
