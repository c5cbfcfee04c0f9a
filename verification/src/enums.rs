//! Closed classifications carried on accounts and expense events.

use vstd::prelude::*;

verus! {

/// How quickly the money on an account can be accessed.
#[derive(Debug, Clone, Copy, PartialEq, Eq, Structural)]
pub enum AccountAvailability {
    Immediately,
    Days,
    Weeks,
    Months,
    Years,
    Decades,
}

/// How exposed the money on an account is.
#[derive(Debug, Clone, Copy, PartialEq, Eq, Structural)]
pub enum AccountRisk {
    NoRisk,
    Slight,
    Low,
    Medium,
    High,
    Huge,
}

/// The sort of account.
#[derive(Debug, Clone, Copy, PartialEq, Eq, Structural)]
pub enum AccountKind {
    Cash,
    Debit,
    Credit,
    Debt,
    Stocks,
    Virtual,
    Other,
}

/// What happened to an expense.
#[derive(Debug, Clone, Copy, PartialEq, Eq, Structural)]
pub enum ExpenseEventType {
    Create,
    Modify,
    Delete,
}

/// Which part of an expense an event touched.
#[derive(Debug, Clone, Copy, PartialEq, Eq, Structural)]
pub enum ExpenseEventTarget {
    Expense,
    Categories,
    Receipts,
    Transactions,
}

} // verus!
