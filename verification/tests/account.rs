use bank_account::{BankAccount, BankError, Money, Timestamp};
use chrono::{DateTime, Utc};

fn stamp(date: DateTime<Utc>) -> Timestamp {
    Timestamp::new(date.timestamp(), date.timestamp_subsec_nanos())
}

fn money(amount: usize) -> Money {
    Money::new(amount).unwrap()
}

#[test]
fn test_create_account() {
    let account = BankAccount::new();
    assert_eq!(account.balance(), 0);
}

#[test]
fn test_make_deposit() {
    let mut account = BankAccount::new();
    account.make_deposit(money(100), stamp(Utc::now()));
    assert_eq!(account.balance(), 100);
}

#[test]
fn test_make_withdrawal() {
    let mut account = BankAccount::new();
    account.make_withdrawal(money(50), stamp(Utc::now())).unwrap();
    assert_eq!(account.balance(), -50);
}

#[test]
fn test_withdrawal_refused_if_balance_falls_below_50() {
    let mut account = BankAccount::new();
    let withdrawal = account.make_withdrawal(money(51), stamp(Utc::now()));
    assert_eq!(withdrawal.map_err(|e| e.message()), Err("Not enough money"));
}

#[test]
fn refused_withdrawal_is_insufficient_funds() {
    let mut account = BankAccount::new();
    let withdrawal = account.make_withdrawal(money(51), Timestamp::new(0, 0));
    assert_eq!(withdrawal, Err(BankError::InsufficientFunds));
    assert_eq!(account.balance(), 0);
    assert_eq!(account.to_statement().lines.len(), 0);
    assert_eq!(account, BankAccount::new());
}

#[test]
fn new_account_is_empty() {
    let account = BankAccount::new();
    assert_eq!(account.balance(), 0);
    assert!(account.to_statement().lines.is_empty());
}

#[test]
fn deposits_add_up() {
    let amounts: [usize; 5] = [1, 20, 300, 0, 4000];
    let mut account = BankAccount::new();
    let mut expected: isize = 0;
    for (i, amount) in amounts.iter().enumerate() {
        account.make_deposit(money(*amount), Timestamp::new(i as i64, 0));
        expected += *amount as isize;
        assert_eq!(account.balance(), expected);
    }
    assert_eq!(account.balance(), 4321);
}

#[test]
fn withdrawal_succeeds_exactly_down_to_the_floor() {
    for start in [0usize, 1, 49, 50, 100] {
        for amount in 0usize..220 {
            let mut account = BankAccount::new();
            account.make_deposit(money(start), Timestamp::new(1, 0));
            let before = account.balance();
            let outcome = account.make_withdrawal(money(amount), Timestamp::new(2, 0));
            let allowed = before - (amount as isize) >= -50;
            assert_eq!(outcome.is_ok(), allowed);
            if allowed {
                assert_eq!(account.balance(), before - amount as isize);
                assert_eq!(account.to_statement().lines.len(), 2);
            } else {
                assert_eq!(outcome, Err(BankError::InsufficientFunds));
                assert_eq!(account.balance(), before);
                assert_eq!(account.to_statement().lines.len(), 1);
            }
        }
    }
}

#[test]
fn floor_is_inclusive() {
    let mut account = BankAccount::new();
    assert_eq!(account.make_withdrawal(money(50), Timestamp::new(0, 0)), Ok(()));
    assert_eq!(account.balance(), -50);
    assert_eq!(
        account.make_withdrawal(money(1), Timestamp::new(1, 0)),
        Err(BankError::InsufficientFunds)
    );
    assert_eq!(account.make_withdrawal(money(0), Timestamp::new(2, 0)), Ok(()));
    assert_eq!(account.balance(), -50);

    let mut other = BankAccount::new();
    assert_eq!(
        other.make_withdrawal(money(51), Timestamp::new(0, 0)),
        Err(BankError::InsufficientFunds)
    );
    assert_eq!(other.balance(), 0);
}

#[test]
fn withdrawal_from_the_floor_of_the_largest_amount_is_refused() {
    let mut account = BankAccount::new();
    account.make_withdrawal(money(50), Timestamp::new(0, 0)).unwrap();
    let largest = money(isize::MAX as usize);
    assert_eq!(
        account.make_withdrawal(largest, Timestamp::new(1, 0)),
        Err(BankError::InsufficientFunds)
    );
    assert_eq!(account.balance(), -50);
}

#[test]
fn failed_withdrawal_leaves_the_balance_and_a_later_one_goes_through() {
    let mut account = BankAccount::new();
    account.make_deposit(money(100), Timestamp::new(0, 0));
    assert_eq!(
        account.make_withdrawal(money(200), Timestamp::new(1, 0)),
        Err(BankError::InsufficientFunds)
    );
    assert_eq!(account.balance(), 100);
    assert_eq!(account.make_withdrawal(money(120), Timestamp::new(2, 0)), Ok(()));
    assert_eq!(account.balance(), -20);
    assert_eq!(
        account.make_withdrawal(money(31), Timestamp::new(3, 0)),
        Err(BankError::InsufficientFunds)
    );
    assert_eq!(account.make_withdrawal(money(30), Timestamp::new(4, 0)), Ok(()));
    assert_eq!(account.balance(), -50);
}

#[test]
fn reads_are_repeatable() {
    let mut account = BankAccount::new();
    account.make_deposit(money(70), Timestamp::new(10, 0));
    account.make_withdrawal(money(30), Timestamp::new(5, 0)).unwrap();
    let first = account.balance();
    let second = account.balance();
    assert_eq!(first, 40);
    assert_eq!(first, second);
    assert_eq!(account.to_statement(), account.to_statement());
    assert_eq!(account.to_statement().to_text(), account.to_statement().to_text());
    assert_eq!(account.balance(), 40);
}

#[test]
fn money_holds_what_a_balance_can() {
    assert_eq!(Money::new(0).unwrap().value(), 0);
    assert_eq!(Money::new(15).unwrap().value(), 15);
    assert_eq!(Money::new(isize::MAX as usize).unwrap().value(), isize::MAX);
}

#[test]
fn money_refuses_what_a_balance_cannot_hold() {
    assert_eq!(Money::new(isize::MAX as usize + 1), Err(BankError::InvalidAmount));
    assert_eq!(Money::new(usize::MAX), Err(BankError::InvalidAmount));
}

#[test]
fn errors_have_their_messages() {
    assert_eq!(BankError::InsufficientFunds.message(), "Not enough money");
    assert_eq!(BankError::InvalidAmount.message(), "Invalid amount");
}
