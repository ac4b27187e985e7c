//! The entries of the ledger: when something happened, and what.

use vstd::prelude::*;
use crate::money::Money;

verus! {

/// An instant of UTC time: whole seconds since 1970-01-01T00:00:00, and the
/// nanoseconds into that second.
#[derive(Clone, Copy, Debug, PartialEq, Eq, Structural)]
pub struct Timestamp {
    /// Whole seconds since 1970-01-01T00:00:00 UTC; negative before it.
    pub secs: i64,
    /// Nanoseconds since the start of that second.
    pub nanos: u32,
}

impl Timestamp {
    /// The instant `nanos` nanoseconds after the whole second `secs`.
    pub fn new(secs: i64, nanos: u32) -> (made: Timestamp)
        ensures
            made == (Timestamp { secs, nanos }),
    {
        Timestamp { secs, nanos }
    }

    /// Whether `self` is a later instant than `other`: seconds decide, then
    /// nanoseconds.
    pub open spec fn later_than(self, other: Timestamp) -> bool {
        self.secs > other.secs || (self.secs == other.secs && self.nanos > other.nanos)
    }

    /// Whether `self` is a later instant than `other`.
    pub fn is_after(&self, other: &Timestamp) -> (later: bool)
        ensures
            later == self.later_than(*other),
    {
        self.secs > other.secs || (self.secs == other.secs && self.nanos > other.nanos)
    }
}

/// The direction of an operation.
#[derive(Clone, Copy, Debug, PartialEq, Eq, Structural)]
pub enum OperationType {
    /// Money taken out: the amount is subtracted from the balance.
    Withdraw,
    /// Money paid in: the amount is added to the balance.
    Deposit,
}

/// One entry of the ledger.
#[derive(Clone, Copy, Debug, PartialEq, Eq)]
pub struct Operation {
    pub operation_type: OperationType,
    pub amount: Money,
    pub date: Timestamp,
}

impl Operation {
    /// An operation is well formed when its amount is.
    pub open spec fn wf(&self) -> bool {
        self.amount.wf()
    }

    /// What the operation adds to the balance: the amount for a deposit, its
    /// negation for a withdrawal.
    pub open spec fn signed_value(&self) -> int {
        match self.operation_type {
            OperationType::Deposit => self.amount@,
            OperationType::Withdraw => -self.amount@,
        }
    }

    /// What the operation adds to the balance.
    pub fn value(&self) -> (signed: isize)
        requires
            self.wf(),
        ensures
            signed == self.signed_value(),
    {
        match self.operation_type {
            OperationType::Deposit => self.amount.value(),
            OperationType::Withdraw => -self.amount.value(),
        }
    }
}

} // verus!
