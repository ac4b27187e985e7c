//! Amounts of money and the errors of the account.

use vstd::prelude::*;

verus! {

/// What can go wrong when an amount is built or money is taken out.
#[derive(Clone, Copy, Debug, PartialEq, Eq, Structural)]
pub enum BankError {
    /// The amount does not fit the signed balance.
    InvalidAmount,
    /// The withdrawal would take the balance below the overdraft floor.
    InsufficientFunds,
}

impl BankError {
    /// The text shown to a person for this error.
    pub open spec fn message_text(self) -> Seq<char> {
        match self {
            BankError::InvalidAmount => "Invalid amount"@,
            BankError::InsufficientFunds => "Not enough money"@,
        }
    }

    /// The text shown to a person for this error.
    pub fn message(&self) -> (text: &'static str)
        ensures
            text@ == self.message_text(),
    {
        match self {
            BankError::InvalidAmount => "Invalid amount",
            BankError::InsufficientFunds => "Not enough money",
        }
    }
}

/// A non-negative amount in the smallest unit of the currency.
///
/// An amount always fits the signed type in which balances are kept.
#[derive(Clone, Copy, Debug, PartialEq, Eq)]
pub struct Money {
    amount: usize,
}

impl View for Money {
    type V = int;

    closed spec fn view(&self) -> int {
        self.amount as int
    }
}

impl Money {
    /// Whether `amount` can be held: it is not negative and fits a balance.
    pub open spec fn representable(amount: int) -> bool {
        0 <= amount <= isize::MAX
    }

    /// The invariant of every amount that `new` hands out.
    pub open spec fn wf(&self) -> bool {
        Self::representable(self@)
    }

    /// Builds an amount, or refuses one that a balance could not hold.
    pub fn new(amount: usize) -> (made: Result<Money, BankError>)
        ensures
            Self::representable(amount as int) ==> made is Ok && made->Ok_0@ == amount
                && made->Ok_0.wf(),
            !Self::representable(amount as int) ==> made == Err::<Money, BankError>(
                BankError::InvalidAmount,
            ),
    {
        if amount <= isize::MAX as usize {
            Ok(Money { amount })
        } else {
            Err(BankError::InvalidAmount)
        }
    }

    /// The amount as a signed number.
    pub fn value(&self) -> (signed: isize)
        requires
            self.wf(),
        ensures
            signed == self@,
    {
        self.amount as isize
    }
}

} // verus!
