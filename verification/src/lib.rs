//! A single bank account kept as an append-only ledger.
//!
//! Deposits and withdrawals are recorded as signed operations, a withdrawal
//! is refused when it would take the balance below the overdraft floor, and a
//! statement lists the operations, most recent first, each with the balance
//! that stood after it was applied.

pub mod money;
pub mod operation;
pub mod account;
pub mod statement;
pub mod render;

pub use money::{BankError, Money};
pub use operation::{Operation, OperationType, Timestamp};
pub use account::BankAccount;
pub use statement::{AccountStatement, AccountStatementLine};
