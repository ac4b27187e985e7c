//! The account: an append-only ledger with an overdraft floor.

use vstd::prelude::*;
use crate::money::{BankError, Money};
use crate::operation::{Operation, OperationType, Timestamp};
use crate::statement::{
    is_most_recent_first, lemma_most_recent_first_unique, sort_most_recent_first,
    AccountStatement, AccountStatementLine,
};

verus! {

/// How far below zero a withdrawal may take the balance.
pub const OVERDRAFT_LIMIT: isize = 50;

/// The balance of a ledger: the sum of the signed values of its operations.
pub open spec fn ledger_balance(ops: Seq<Operation>) -> int
    decreases ops.len(),
{
    if ops.len() == 0 {
        0
    } else {
        ledger_balance(ops.drop_last()) + ops.last().signed_value()
    }
}

/// The balance that stood after the operation at `index` was applied.
pub open spec fn balance_after(ops: Seq<Operation>, index: int) -> int {
    ledger_balance(ops.take(index + 1))
}

/// A ledger is well formed when each amount is, and when at every point of
/// its history the balance was at or above the overdraft floor and fitted
/// the signed type of balances.
pub open spec fn ledger_wf(ops: Seq<Operation>) -> bool {
    &&& forall|i: int| 0 <= i < ops.len() ==> (#[trigger] ops[i]).wf()
    &&& forall|k: int|
        0 <= k <= ops.len() ==> -OVERDRAFT_LIMIT <= #[trigger] ledger_balance(ops.take(k))
            <= isize::MAX
}

/// The lines of a ledger in the order of the ledger: each holds the date and
/// the signed value of its operation, and the balance that stood after it.
pub open spec fn ledger_lines(ops: Seq<Operation>) -> Seq<AccountStatementLine> {
    Seq::new(
        ops.len(),
        |i: int|
            AccountStatementLine {
                date: ops[i].date,
                amount: ops[i].signed_value() as isize,
                balance: balance_after(ops, i) as isize,
            },
    )
}

/// The sum of a sequence of numbers.
pub open spec fn sum(amounts: Seq<int>) -> int
    decreases amounts.len(),
{
    if amounts.len() == 0 {
        0
    } else {
        sum(amounts.drop_last()) + amounts.last()
    }
}

/// The amounts of the operations, in ledger order.
pub open spec fn amounts_of(ops: Seq<Operation>) -> Seq<int> {
    Seq::new(ops.len(), |i: int| ops[i].amount@)
}

/// Whether every operation is a deposit.
pub open spec fn all_deposits(ops: Seq<Operation>) -> bool {
    forall|i: int| 0 <= i < ops.len() ==> (#[trigger] ops[i]).operation_type == OperationType::Deposit
}

/// Appending one operation adds its signed value to the balance.
pub proof fn lemma_balance_push(ops: Seq<Operation>, op: Operation)
    ensures
        ledger_balance(ops.push(op)) == ledger_balance(ops) + op.signed_value(),
{
    assert(ops.push(op).drop_last() =~= ops);
}

/// Appending an operation to a well-formed ledger keeps it well formed when
/// the operation is, and the new balance is within bounds.
pub proof fn lemma_wf_push(ops: Seq<Operation>, op: Operation)
    requires
        ledger_wf(ops),
        op.wf(),
        -OVERDRAFT_LIMIT <= ledger_balance(ops) + op.signed_value() <= isize::MAX,
    ensures
        ledger_wf(ops.push(op)),
{
    let grown = ops.push(op);
    lemma_balance_push(ops, op);
    assert forall|k: int| 0 <= k <= grown.len() implies -OVERDRAFT_LIMIT
        <= #[trigger] ledger_balance(grown.take(k)) <= isize::MAX by {
        if k <= ops.len() {
            assert(grown.take(k) =~= ops.take(k));
        } else {
            assert(grown.take(k) =~= grown);
        }
    }
}

/// A ledger of deposits alone has the sum of their amounts as its balance,
/// on top of whatever stood before them.
pub proof fn lemma_deposits_add_up(before: Seq<Operation>, deposits: Seq<Operation>)
    requires
        all_deposits(deposits),
    ensures
        ledger_balance(before + deposits) == ledger_balance(before) + sum(amounts_of(deposits)),
        ledger_balance(deposits) == sum(amounts_of(deposits)),
    decreases deposits.len(),
{
    if deposits.len() == 0 {
        assert(before + deposits =~= before);
    } else {
        let earlier = deposits.drop_last();
        lemma_deposits_add_up(before, earlier);
        lemma_deposits_add_up(Seq::empty(), earlier);
        assert(amounts_of(deposits).drop_last() =~= amounts_of(earlier));
        assert((before + deposits).drop_last() =~= before + earlier);
        assert(Seq::<Operation>::empty() + earlier =~= earlier);
        assert(deposits.last().operation_type == OperationType::Deposit);
    }
}

/// In a well-formed ledger no line loses anything to the width of its
/// numbers: amount and balance are the signed value and the running balance
/// themselves.
pub proof fn lemma_ledger_lines_exact(ops: Seq<Operation>, index: int)
    requires
        ledger_wf(ops),
        0 <= index < ops.len(),
    ensures
        ledger_lines(ops)[index].date == ops[index].date,
        ledger_lines(ops)[index].amount == ops[index].signed_value(),
        ledger_lines(ops)[index].balance == balance_after(ops, index),
        -OVERDRAFT_LIMIT <= balance_after(ops, index),
{
    assert(ops[index].wf());
    assert(-OVERDRAFT_LIMIT <= ledger_balance(ops.take(index + 1)) <= isize::MAX);
}

/// Reading an account again, with nothing done to it in between, gives the
/// same balance and the same statement.
pub proof fn lemma_reads_repeatable(
    ops: Seq<Operation>,
    first_balance: isize,
    second_balance: isize,
    first_statement: Seq<AccountStatementLine>,
    second_statement: Seq<AccountStatementLine>,
)
    requires
        first_balance == ledger_balance(ops),
        second_balance == ledger_balance(ops),
        is_most_recent_first(ledger_lines(ops), first_statement),
        is_most_recent_first(ledger_lines(ops), second_statement),
    ensures
        first_balance == second_balance,
        first_statement == second_statement,
{
    lemma_most_recent_first_unique(ledger_lines(ops), first_statement, second_statement);
}

/// A bank account: the operations made on it, oldest first.
#[derive(Debug, PartialEq)]
pub struct BankAccount {
    operations: Vec<Operation>,
}

impl View for BankAccount {
    type V = Seq<Operation>;

    closed spec fn view(&self) -> Seq<Operation> {
        self.operations@
    }
}

impl BankAccount {
    /// The invariant of the account: its ledger is well formed.
    pub open spec fn wf(&self) -> bool {
        ledger_wf(self@)
    }

    /// An account on which nothing has happened yet.
    pub fn new() -> (account: BankAccount)
        ensures
            account@ == Seq::<Operation>::empty(),
            account.wf(),
            ledger_balance(account@) == 0,
    {
        let account = BankAccount { operations: Vec::new() };
        proof {
            assert forall|k: int| 0 <= k <= account@.len() implies -OVERDRAFT_LIMIT
                <= #[trigger] ledger_balance(account@.take(k)) <= isize::MAX by {
                assert(account@.take(k) =~= Seq::<Operation>::empty());
            }
        }
        account
    }

    /// The sum of the signed values of all operations.
    pub fn balance(&self) -> (total: isize)
        requires
            self.wf(),
        ensures
            total == ledger_balance(self@),
            -OVERDRAFT_LIMIT <= total,
    {
        let mut total: isize = 0;
        let mut i: usize = 0;
        while i < self.operations.len()
            invariant
                self.wf(),
                i <= self.operations.len(),
                total == ledger_balance(self@.take(i as int)),
            decreases self.operations.len() - i,
        {
            proof {
                assert(self@.take(i + 1).drop_last() =~= self@.take(i as int));
                assert(self@.take(i + 1).last() == self@[i as int]);
                assert(-OVERDRAFT_LIMIT <= ledger_balance(self@.take(i + 1)) <= isize::MAX);
            }
            total = total + self.operations[i].value();
            i += 1;
        }
        proof {
            assert(self@.take(i as int) =~= self@);
            assert(-OVERDRAFT_LIMIT <= ledger_balance(self@.take(i as int)));
        }
        total
    }

    /// Records a deposit of `money` made at `date`.
    ///
    /// The new balance has to fit the signed type of balances.
    pub fn make_deposit(&mut self, money: Money, date: Timestamp)
        requires
            old(self).wf(),
            money.wf(),
            ledger_balance(old(self)@) + money@ <= isize::MAX,
        ensures
            final(self).wf(),
            final(self)@ == old(self)@.push(
                (Operation { operation_type: OperationType::Deposit, amount: money, date }),
            ),
            ledger_balance(final(self)@) == ledger_balance(old(self)@) + money@,
    {
        let op = Operation { operation_type: OperationType::Deposit, amount: money, date };
        proof {
            assert(self@.take(self@.len() as int) =~= self@);
            lemma_balance_push(self@, op);
            lemma_wf_push(self@, op);
        }
        self.operations.push(op);
    }

    /// Records a withdrawal of `money` made at `date`, unless it would take
    /// the balance below the overdraft floor: then the account is left as it
    /// was and the withdrawal is refused.
    pub fn make_withdrawal(&mut self, money: Money, date: Timestamp) -> (outcome: Result<
        (),
        BankError,
    >)
        requires
            old(self).wf(),
            money.wf(),
        ensures
            final(self).wf(),
            outcome is Ok <==> ledger_balance(old(self)@) - money@ >= -OVERDRAFT_LIMIT,
            outcome is Ok ==> final(self)@ == old(self)@.push(
                (Operation { operation_type: OperationType::Withdraw, amount: money, date }),
            ),
            outcome is Ok ==> ledger_balance(final(self)@) == ledger_balance(old(self)@) - money@,
            outcome is Err ==> outcome->Err_0 == BankError::InsufficientFunds,
            outcome is Err ==> final(self)@ == old(self)@,
    {
        let current = self.balance();
        let amount = money.value();
        let refused = if current >= 0 {
            current - amount < -OVERDRAFT_LIMIT
        } else {
            amount > current + OVERDRAFT_LIMIT
        };
        if refused {
            Err(BankError::InsufficientFunds)
        } else {
            let op = Operation { operation_type: OperationType::Withdraw, amount: money, date };
            proof {
                lemma_balance_push(self@, op);
                lemma_wf_push(self@, op);
            }
            self.operations.push(op);
            Ok(())
        }
    }

    /// One line for each operation, in the order of the ledger, each with the
    /// balance that stood once its operation was applied.
    pub fn chronological_lines(&self) -> (lines: Vec<AccountStatementLine>)
        requires
            self.wf(),
        ensures
            lines@ == ledger_lines(self@),
    {
        let mut lines: Vec<AccountStatementLine> = Vec::new();
        let mut running: isize = 0;
        let mut i: usize = 0;
        while i < self.operations.len()
            invariant
                self.wf(),
                i <= self.operations.len(),
                running == ledger_balance(self@.take(i as int)),
                lines@.len() == i,
                forall|k: int| 0 <= k < i ==> #[trigger] lines@[k] == ledger_lines(self@)[k],
            decreases self.operations.len() - i,
        {
            proof {
                assert(self@.take(i + 1).drop_last() =~= self@.take(i as int));
                assert(self@.take(i + 1).last() == self@[i as int]);
                lemma_ledger_lines_exact(self@, i as int);
            }
            let op = &self.operations[i];
            let amount = op.value();
            running = running + amount;
            lines.push(AccountStatementLine { date: op.date, amount, balance: running });
            i += 1;
        }
        proof {
            assert(lines@ =~= ledger_lines(self@));
        }
        lines
    }

    /// The statement of the account: its lines, most recent first.
    ///
    /// The balance of each line is the one that stood after its operation in
    /// the order of the ledger, wherever the line is shown.
    pub fn to_statement(&self) -> (statement: AccountStatement)
        requires
            self.wf(),
        ensures
            is_most_recent_first(ledger_lines(self@), statement@),
            statement@.len() == self@.len(),
    {
        let lines = self.chronological_lines();
        AccountStatement { lines: sort_most_recent_first(&lines) }
    }
}

} // verus!
