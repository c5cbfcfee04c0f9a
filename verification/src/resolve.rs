//! The two per-record resolvers: account synchronization (redirect and sign)
//! and category replacement (single-hop indirection).

use vstd::prelude::*;

use crate::models::AccountSynchronization;
use crate::models::CategoryReplacement;

verus! {

/// The other side of a synchronization link, seen from `account_id`.
pub open spec fn sync_counterpart(account_id: i32, sync: AccountSynchronization) -> i32 {
    if sync.account1 == account_id {
        sync.account2
    } else {
        sync.account1
    }
}

/// The redirected account identifier and the sign multiplier for a record on
/// `account_id`: without a link the record stays where it is with sign `+1`;
/// with a link it moves to the other side of the pair, and the sign flips
/// exactly when the link inverts.
pub open spec fn resolve_account_spec(account_id: i32, sync: Option<AccountSynchronization>) -> (
    i32,
    i64,
) {
    match sync {
        None => (account_id, 1i64),
        Some(s) => (sync_counterpart(account_id, s), if s.invert { -1i64 } else { 1i64 }),
    }
}

/// Redirects a record's account across its synchronization link, if any, and
/// reports the sign to apply to the record's amounts.
pub fn resolve_account(account_id: i32, sync: &Option<AccountSynchronization>) -> (out: (i32, i64))
    ensures
        out == resolve_account_spec(account_id, *sync),
{
    match sync {
        None => (account_id, 1i64),
        Some(s) => {
            let target = if s.account1 == account_id {
                s.account2
            } else {
                s.account1
            };
            (target, if s.invert { -1i64 } else { 1i64 })
        },
    }
}

/// The rendered category for `category_id` under an optional replacement: the
/// replacement's target when one applies to exactly this category, otherwise
/// the category itself. Replacement is one level deep; chains are never
/// followed.
pub open spec fn resolve_category_spec(category_id: i32, replacement: Option<
    CategoryReplacement,
>) -> i32 {
    match replacement {
        Some(r) if r.original == category_id => r.replacement,
        _ => category_id,
    }
}

/// Rewrites a category reference to its current per-user replacement, if one
/// exists for it.
pub fn resolve_category(category_id: i32, replacement: &Option<CategoryReplacement>) -> (out: i32)
    ensures
        out == resolve_category_spec(category_id, *replacement),
{
    match replacement {
        Some(r) if r.original == category_id => r.replacement,
        _ => category_id,
    }
}

/// Resolving is symmetric over a link: a record on either account of the pair
/// is redirected to the other account, and the sign is `-1` exactly when the
/// link inverts, in both directions.
pub proof fn lemma_sync_symmetry(sync: AccountSynchronization)
    requires
        sync.account1 < sync.account2,
    ensures
        resolve_account_spec(sync.account1, Some(sync)).0 == sync.account2,
        resolve_account_spec(sync.account2, Some(sync)).0 == sync.account1,
        resolve_account_spec(sync.account1, Some(sync)).1 == if sync.invert {
            -1i64
        } else {
            1i64
        },
        resolve_account_spec(sync.account2, Some(sync)).1 == if sync.invert {
            -1i64
        } else {
            1i64
        },
{
}

/// Category replacement is single-hop: under a replacement from `category_id`
/// to `first.replacement`, the category renders as `first.replacement`, even
/// when a second replacement moves `first.replacement` further — the second
/// hop is never taken.
pub proof fn lemma_replacement_single_hop(
    category_id: i32,
    first: CategoryReplacement,
    second: CategoryReplacement,
)
    requires
        first.original == category_id,
        second.original == first.replacement,
        second.replacement != first.replacement,
    ensures
        resolve_category_spec(category_id, Some(first)) == first.replacement,
        resolve_category_spec(category_id, Some(first)) != second.replacement,
{
}

} // verus!
