//! Immutable snapshots of the stored records, as the storage collaborator
//! hands them to the engine. Instants are carried as seconds since the Unix
//! epoch; monetary amounts are integers in minor currency units; fractional
//! values are exact ratios.

use vstd::prelude::*;

use crate::enums::AccountAvailability;
use crate::enums::AccountKind;
use crate::enums::AccountRisk;
use crate::enums::ExpenseEventTarget;
use crate::enums::ExpenseEventType;
use crate::money::Ratio;

verus! {

/// A registered user.
#[derive(Debug, PartialEq, Eq)]
pub struct User {
    pub id: i32,
    pub name: String,
    pub full_name: String,
    pub hash: String,
}

/// A user to be stored, before an identity is assigned.
#[derive(Debug, PartialEq, Eq)]
pub struct NewUser {
    pub name: String,
    pub full_name: String,
    pub hash: String,
}

/// An account owned by one user.
#[derive(Debug, PartialEq, Eq)]
pub struct Account {
    pub id: i32,
    pub user_id: i32,
    pub name: String,
    pub description: String,
    pub color: Option<String>,
    pub iban: Option<String>,
    pub kind: AccountKind,
    pub availability: AccountAvailability,
    pub risk: AccountRisk,
    pub hidden: bool,
}

/// An account to be stored, before an identity is assigned.
#[derive(Debug, PartialEq, Eq)]
pub struct NewAccount {
    pub user_id: i32,
    pub name: String,
    pub description: String,
    pub color: Option<String>,
    pub iban: Option<String>,
    pub kind: AccountKind,
    pub availability: AccountAvailability,
    pub risk: AccountRisk,
    pub hidden: bool,
}

/// A category that expenses can be tagged with.
#[derive(Debug, PartialEq, Eq)]
pub struct Category {
    pub id: i32,
    pub user_id: i32,
    pub name: String,
    pub description: String,
    pub color: Option<String>,
    pub parent: Option<i32>,
}

/// A category to be stored, before an identity is assigned.
#[derive(Debug, PartialEq, Eq)]
pub struct NewCategory {
    pub user_id: i32,
    pub name: String,
    pub description: String,
    pub color: Option<String>,
    pub parent: Option<i32>,
}

/// A declared mirroring link between two accounts of different users.
///
/// By convention `account1 < account2`, each account takes part in at most
/// one link, and `user1` and `user2` own `account1` and `account2`.
#[derive(Debug, Clone, Copy, PartialEq, Eq, Structural)]
pub struct AccountSynchronization {
    pub account1: i32,
    pub account2: i32,
    pub user1: i32,
    pub user2: i32,
    pub invert: bool,
}

/// A per-user override that redirects an original category to a replacement
/// at render time.
#[derive(Debug, Clone, Copy, PartialEq, Eq, Structural)]
pub struct CategoryReplacement {
    pub user_id: i32,
    pub original: i32,
    pub replacement: i32,
}

/// A stated amount on an account at an instant; expenses strictly before
/// `date` are included.
#[derive(Debug, PartialEq, Eq)]
pub struct Balance {
    pub id: i32,
    pub account_id: i32,
    pub date: i64,
    pub amount: i64,
    pub comment: String,
}

/// A bookkeeping entry over the half-open interval
/// `[booking_start, booking_end)`.
#[derive(Debug, PartialEq, Eq)]
pub struct Expense {
    pub id: i32,
    pub title: String,
    pub description: String,
    pub store: String,
    pub comments: String,
    pub booking_start: i64,
    pub booking_end: i64,
    pub is_deleted: bool,
    pub is_template: bool,
    pub is_preliminary: bool,
    pub is_tax_relevant: bool,
    pub is_unchecked: bool,
}

/// One account's part in an expense: either a fixed amount in minor currency
/// units or a fraction of the expense's fixed basis, never both.
#[derive(Debug, PartialEq, Eq)]
pub struct ExpenseTransaction {
    pub id: i32,
    pub expense_id: i32,
    pub account_id: i32,
    pub date: i64,
    pub amount: Option<i64>,
    pub fraction: Option<Ratio>,
    pub comments: String,
    pub statement: String,
}

/// A recorded change to an expense.
#[derive(Debug, PartialEq, Eq)]
pub struct ExpenseEvent {
    pub id: i32,
    pub expense_id: i32,
    pub user_id: Option<i32>,
    pub date: i64,
    pub tool: String,
    pub automatic: bool,
    pub event_type: ExpenseEventType,
    pub event_target: ExpenseEventTarget,
    pub payload: Option<String>,
}

/// An association between an expense and a category, with a positive weight.
#[derive(Debug, Clone, Copy, PartialEq, Eq, Structural)]
pub struct ExpenseCategory {
    pub expense_id: i32,
    pub category_id: i32,
    pub weight: Ratio,
}

/// A stored receipt attached to an expense.
#[derive(Debug, PartialEq, Eq)]
pub struct ExpenseReceipt {
    pub id: i32,
    pub expense_id: i32,
    pub file_name: String,
}

/// A receipt to be stored, before an identity is assigned.
#[derive(Debug, PartialEq, Eq)]
pub struct NewExpenseReceipt {
    pub expense_id: i32,
    pub file_name: String,
}

impl Clone for Account {
    fn clone(&self) -> (out: Self)
        ensures
            out == *self,
    {
        Account {
            id: self.id,
            user_id: self.user_id,
            name: self.name.clone(),
            description: self.description.clone(),
            color: self.color.clone(),
            iban: self.iban.clone(),
            kind: self.kind,
            availability: self.availability,
            risk: self.risk,
            hidden: self.hidden,
        }
    }
}

impl Clone for Expense {
    fn clone(&self) -> (out: Self)
        ensures
            out == *self,
    {
        Expense {
            id: self.id,
            title: self.title.clone(),
            description: self.description.clone(),
            store: self.store.clone(),
            comments: self.comments.clone(),
            booking_start: self.booking_start,
            booking_end: self.booking_end,
            is_deleted: self.is_deleted,
            is_template: self.is_template,
            is_preliminary: self.is_preliminary,
            is_tax_relevant: self.is_tax_relevant,
            is_unchecked: self.is_unchecked,
        }
    }
}

impl Clone for ExpenseTransaction {
    fn clone(&self) -> (out: Self)
        ensures
            out == *self,
    {
        ExpenseTransaction {
            id: self.id,
            expense_id: self.expense_id,
            account_id: self.account_id,
            date: self.date,
            amount: self.amount,
            fraction: self.fraction,
            comments: self.comments.clone(),
            statement: self.statement.clone(),
        }
    }
}

impl Clone for ExpenseEvent {
    fn clone(&self) -> (out: Self)
        ensures
            out == *self,
    {
        ExpenseEvent {
            id: self.id,
            expense_id: self.expense_id,
            user_id: self.user_id,
            date: self.date,
            tool: self.tool.clone(),
            automatic: self.automatic,
            event_type: self.event_type,
            event_target: self.event_target,
            payload: self.payload.clone(),
        }
    }
}

impl Clone for ExpenseReceipt {
    fn clone(&self) -> (out: Self)
        ensures
            out == *self,
    {
        ExpenseReceipt {
            id: self.id,
            expense_id: self.expense_id,
            file_name: self.file_name.clone(),
        }
    }
}

} // verus!
