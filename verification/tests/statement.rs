use bank_account::statement::sort_most_recent_first;
use bank_account::{
    AccountStatement, AccountStatementLine, BankAccount, Money, Operation, OperationType,
    Timestamp,
};
use chrono::{DateTime, TimeZone, Utc};

fn stamp(date: DateTime<Utc>) -> Timestamp {
    Timestamp::new(date.timestamp(), date.timestamp_subsec_nanos())
}

fn money(amount: usize) -> Money {
    Money::new(amount).unwrap()
}

fn line(secs: i64, nanos: u32, amount: isize, balance: isize) -> AccountStatementLine {
    AccountStatementLine { date: Timestamp::new(secs, nanos), amount, balance }
}

#[test]
#[allow(deprecated)]
fn test_account_statement() {
    let mut account = BankAccount::new();
    account.make_deposit(money(10), stamp(Utc.ymd(2022, 1, 14).and_hms(8, 9, 10)));
    account.make_deposit(money(20), stamp(Utc.ymd(2022, 1, 15).and_hms(8, 9, 10)));
    account.make_withdrawal(money(15), stamp(Utc.ymd(2022, 1, 18).and_hms(8, 9, 10))).unwrap();
    let lines = vec![
        AccountStatementLine {
            date: stamp(Utc.ymd(2022, 1, 18).and_hms(8, 9, 10)),
            amount: -15,
            balance: 15,
        },
        AccountStatementLine {
            date: stamp(Utc.ymd(2022, 1, 15).and_hms(8, 9, 10)),
            amount: 20,
            balance: 30,
        },
        AccountStatementLine {
            date: stamp(Utc.ymd(2022, 1, 14).and_hms(8, 9, 10)),
            amount: 10,
            balance: 10,
        },
    ];
    assert_eq!(account.to_statement(), AccountStatement { lines });
}

#[test]
fn timestamps_stand_for_the_same_instants() {
    let date = Utc.with_ymd_and_hms(2022, 1, 18, 8, 9, 10).unwrap();
    assert_eq!(stamp(date), Timestamp { secs: 1642493350, nanos: 0 });
}

#[test]
fn running_balance_follows_the_ledger_not_the_dates() {
    let mut account = BankAccount::new();
    account.make_deposit(money(100), Timestamp::new(300, 0));
    account.make_withdrawal(money(30), Timestamp::new(100, 0)).unwrap();
    account.make_deposit(money(5), Timestamp::new(200, 0));
    assert_eq!(
        account.to_statement().lines,
        vec![line(300, 0, 100, 100), line(200, 0, 5, 75), line(100, 0, -30, 70)]
    );
    assert_eq!(
        account.chronological_lines(),
        vec![line(300, 0, 100, 100), line(100, 0, -30, 70), line(200, 0, 5, 75)]
    );
    assert_eq!(account.balance(), 75);
}

#[test]
fn lines_of_one_date_keep_the_order_of_the_ledger() {
    let mut account = BankAccount::new();
    account.make_deposit(money(1), Timestamp::new(7, 0));
    account.make_deposit(money(2), Timestamp::new(9, 0));
    account.make_deposit(money(3), Timestamp::new(7, 0));
    account.make_deposit(money(4), Timestamp::new(7, 0));
    account.make_deposit(money(5), Timestamp::new(9, 0));
    assert_eq!(
        account.to_statement().lines,
        vec![
            line(9, 0, 2, 3),
            line(9, 0, 5, 15),
            line(7, 0, 1, 1),
            line(7, 0, 3, 6),
            line(7, 0, 4, 10),
        ]
    );
}

#[test]
fn nanoseconds_decide_within_a_second() {
    let lines = vec![line(5, 10, 1, 1), line(5, 20, 2, 3), line(4, 999_999_999, 3, 6), line(-1, 0, 4, 10)];
    assert_eq!(
        sort_most_recent_first(&lines),
        vec![line(5, 20, 2, 3), line(5, 10, 1, 1), line(4, 999_999_999, 3, 6), line(-1, 0, 4, 10)]
    );
}

#[test]
fn sorting_agrees_with_a_stable_sort_by_date() {
    let mut lines = Vec::new();
    let mut seed: u64 = 12345;
    for i in 0..200 {
        seed = seed.wrapping_mul(6364136223846793005).wrapping_add(1442695040888963407);
        let secs = ((seed >> 33) % 7) as i64 - 3;
        let nanos = ((seed >> 20) % 3) as u32;
        lines.push(line(secs, nanos, i, i));
    }
    let mut expected = lines.clone();
    expected.sort_by(|a, b| (b.date.secs, b.date.nanos).cmp(&(a.date.secs, a.date.nanos)));
    assert_eq!(sort_most_recent_first(&lines), expected);
}

#[test]
fn sorting_nothing_gives_nothing() {
    assert_eq!(sort_most_recent_first(&Vec::new()), Vec::new());
}

#[test]
fn later_instants_are_after_earlier_ones() {
    assert!(Timestamp::new(2, 0).is_after(&Timestamp::new(1, 999)));
    assert!(Timestamp::new(1, 5).is_after(&Timestamp::new(1, 4)));
    assert!(!Timestamp::new(1, 4).is_after(&Timestamp::new(1, 4)));
    assert!(!Timestamp::new(1, 4).is_after(&Timestamp::new(1, 5)));
    assert!(!Timestamp::new(-3, 4).is_after(&Timestamp::new(0, 0)));
    let earlier = Utc.with_ymd_and_hms(2022, 1, 14, 8, 9, 10).unwrap();
    let later = Utc.with_ymd_and_hms(2022, 1, 15, 8, 9, 10).unwrap();
    assert_eq!(stamp(later).is_after(&stamp(earlier)), later > earlier);
    assert_eq!(stamp(earlier).is_after(&stamp(later)), earlier > later);
}

#[test]
fn operations_are_signed_by_their_direction() {
    let deposit = Operation {
        operation_type: OperationType::Deposit,
        amount: money(12),
        date: Timestamp::new(0, 0),
    };
    let withdrawal = Operation {
        operation_type: OperationType::Withdraw,
        amount: money(12),
        date: Timestamp::new(0, 0),
    };
    assert_eq!(deposit.value(), 12);
    assert_eq!(withdrawal.value(), -12);
    let largest = Operation {
        operation_type: OperationType::Withdraw,
        amount: money(isize::MAX as usize),
        date: Timestamp::new(0, 0),
    };
    assert_eq!(largest.value(), -isize::MAX);
}
