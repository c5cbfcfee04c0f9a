//! Rendered views: per-viewer corrected records, the amount reconciler and
//! the merge-join renderer that assembles one rendered expense per input
//! expense.

use vstd::prelude::*;

use crate::models::Account;
use crate::models::AccountSynchronization;
use crate::models::Balance;
use crate::models::Category;
use crate::models::CategoryReplacement;
use crate::models::Expense;
use crate::models::ExpenseCategory;
use crate::models::ExpenseEvent;
use crate::models::ExpenseReceipt;
use crate::models::ExpenseTransaction;
use crate::money::settled_share;
use crate::money::settle_share;
use crate::money::Ratio;

verus! {

/// The fixed amount a transaction contributes to its expense's basis: its
/// amount when one is set, zero otherwise.
pub open spec fn amount_or_zero(t: ExpenseTransaction) -> int {
    match t.amount {
        Some(a) => a as int,
        None => 0,
    }
}

/// The basis of an expense: the sum of the fixed amounts among its
/// transactions.
pub open spec fn basis_of(
    rows: Seq<(ExpenseTransaction, Account, Option<AccountSynchronization>)>,
) -> int
    decreases rows.len(),
{
    if rows.len() == 0 {
        0
    } else {
        basis_of(rows.drop_last()) + amount_or_zero(rows.last().0)
    }
}

/// A transaction's settled amount against a basis: its fixed amount when one
/// is set, else its share of the basis truncated toward zero, else zero.
pub open spec fn tx_settled(t: ExpenseTransaction, basis: int) -> int {
    match t.amount {
        Some(a) => a as int,
        None => match t.fraction {
            Some(f) => settled_share(f, basis),
            None => 0,
        },
    }
}

/// Whether a transaction row counts toward the viewing user's total: it does
/// when it carries a synchronization link (the redirected account is then
/// viewer-owned by construction) or when its raw account belongs to the
/// viewer.
pub open spec fn viewer_attributable(
    uid: i32,
    row: (ExpenseTransaction, Account, Option<AccountSynchronization>),
) -> bool {
    row.2 is Some || row.1.user_id == uid
}

/// The total settled amount attributable to the viewing user: the sum of the
/// settled amounts of the viewer-attributable rows.
pub open spec fn total_of(
    uid: i32,
    rows: Seq<(ExpenseTransaction, Account, Option<AccountSynchronization>)>,
    basis: int,
) -> int
    decreases rows.len(),
{
    if rows.len() == 0 {
        0
    } else {
        total_of(uid, rows.drop_last(), basis) + if viewer_attributable(uid, rows.last()) {
            tx_settled(rows.last().0, basis)
        } else {
            0
        }
    }
}

/// The fixed-amount contributions to the viewer's total: the sum of the
/// fixed amounts of the viewer-attributable rows that carry one.
pub open spec fn fixed_total_of(
    uid: i32,
    rows: Seq<(ExpenseTransaction, Account, Option<AccountSynchronization>)>,
) -> int
    decreases rows.len(),
{
    if rows.len() == 0 {
        0
    } else {
        fixed_total_of(uid, rows.drop_last()) + if viewer_attributable(uid, rows.last()) {
            amount_or_zero(rows.last().0)
        } else {
            0
        }
    }
}

/// The fraction-derived contributions to the viewer's total: the sum of the
/// settled shares of the viewer-attributable rows that carry a fraction and
/// no fixed amount.
pub open spec fn fraction_total_of(
    uid: i32,
    rows: Seq<(ExpenseTransaction, Account, Option<AccountSynchronization>)>,
    basis: int,
) -> int
    decreases rows.len(),
{
    if rows.len() == 0 {
        0
    } else {
        fraction_total_of(uid, rows.drop_last(), basis) + if viewer_attributable(uid, rows.last())
            && rows.last().0.amount is None {
            match rows.last().0.fraction {
                Some(f) => settled_share(f, basis),
                None => 0,
            }
        } else {
            0
        }
    }
}

/// Summing the fixed-amount contributions and the fraction-derived
/// contributions separately, then adding them, gives the same total as
/// summing each row's settled amount once.
pub proof fn lemma_total_splits(
    uid: i32,
    rows: Seq<(ExpenseTransaction, Account, Option<AccountSynchronization>)>,
    basis: int,
)
    ensures
        total_of(uid, rows, basis) == fixed_total_of(uid, rows) + fraction_total_of(
            uid,
            rows,
            basis,
        ),
    decreases rows.len(),
{
    if rows.len() > 0 {
        lemma_total_splits(uid, rows.drop_last(), basis);
    }
}

/// How many of the rows carry a fixed amount.
pub open spec fn fixed_count(
    rows: Seq<(ExpenseTransaction, Account, Option<AccountSynchronization>)>,
) -> int
    decreases rows.len(),
{
    if rows.len() == 0 {
        0
    } else {
        fixed_count(rows.drop_last()) + if rows.last().0.amount is Some {
            1int
        } else {
            0int
        }
    }
}

/// A non-fatal data-integrity anomaly found while reconciling an expense's
/// amounts. Rendering always completes; an anomaly is only reported so that
/// a caller can log it.
#[derive(Debug, Clone, Copy, PartialEq, Eq, Structural)]
pub enum AmountAnomaly {
    /// No transaction carries a fixed amount: the basis is taken to be zero
    /// and the expense renders with a zero total.
    NoFixedAmount,
    /// More than one fixed amount is mixed with fractional transactions:
    /// unsupported by design, reconciled best-effort.
    MixedFixedAndFractional,
}

/// The anomaly an expense's transactions exhibit, if any.
pub open spec fn anomaly_of(
    rows: Seq<(ExpenseTransaction, Account, Option<AccountSynchronization>)>,
) -> Option<AmountAnomaly> {
    if fixed_count(rows) == 0 {
        Some(AmountAnomaly::NoFixedAmount)
    } else if fixed_count(rows) > 1 && fixed_count(rows) < rows.len() {
        Some(AmountAnomaly::MixedFixedAndFractional)
    } else {
        None
    }
}

/// What reconciliation needs of a row set: every fraction is a bounded
/// share, and the basis, each settled amount and the total fit in a signed
/// 64-bit amount.
pub open spec fn rows_reconcilable(
    uid: i32,
    rows: Seq<(ExpenseTransaction, Account, Option<AccountSynchronization>)>,
) -> bool {
    &&& forall|i: int|
        0 <= i < rows.len() ==> ((#[trigger] rows[i]).0.fraction matches Some(f) ==> f.bounded())
    &&& i64::MIN <= basis_of(rows) <= i64::MAX
    &&& forall|i: int|
        0 <= i < rows.len() ==> i64::MIN <= tx_settled((#[trigger] rows[i]).0, basis_of(rows))
            <= i64::MAX
    &&& i64::MIN <= total_of(uid, rows, basis_of(rows)) <= i64::MAX
}

/// Reports the data-integrity anomaly of an expense's transactions, if any,
/// so that a caller can record it: reconciliation itself never fails on one.
pub fn amount_anomaly(
    transactions: &[(ExpenseTransaction, Account, Option<AccountSynchronization>)],
) -> (out: Option<AmountAnomaly>)
    ensures
        out == anomaly_of(transactions@),
{
    let ghost rows = transactions@;
    let mut with_amount: usize = 0;
    let mut i: usize = 0;
    while i < transactions.len()
        invariant
            0 <= i <= rows.len(),
            rows == transactions@,
            with_amount == fixed_count(rows.take(i as int)),
            with_amount <= i,
        decreases rows.len() - i,
    {
        let row = vstd::slice::slice_index_get(transactions, i);
        if row.0.amount.is_some() {
            with_amount = with_amount + 1;
        }
        proof {
            assert(rows.take(i + 1).drop_last() =~= rows.take(i as int));
            assert(rows.take(i + 1).last() == rows[i as int]);
        }
        i = i + 1;
    }
    proof {
        assert(rows.take(rows.len() as int) =~= rows);
    }
    if with_amount == 0 {
        Some(AmountAnomaly::NoFixedAmount)
    } else if with_amount > 1 && with_amount < transactions.len() {
        Some(AmountAnomaly::MixedFixedAndFractional)
    } else {
        None
    }
}

/// Computes an expense's total settled amount and the per-transaction
/// settled amount list from its (already sign- and account-corrected)
/// transaction rows.
///
/// The total sums only viewer-attributable rows; the settled list covers
/// every row in order. A missing fixed amount makes the basis zero and the
/// render still completes, as [`anomaly_of`] records.
pub fn calculate_total_amount(
    uid: i32,
    _info: &Expense,
    transactions: &[(ExpenseTransaction, Account, Option<AccountSynchronization>)],
) -> (out: (i64, Vec<i64>))
    requires
        rows_reconcilable(uid, transactions@),
    ensures
        out.0 as int == total_of(uid, transactions@, basis_of(transactions@)),
        out.0 as int == fixed_total_of(uid, transactions@) + fraction_total_of(
            uid,
            transactions@,
            basis_of(transactions@),
        ),
        out.1@.len() == transactions@.len(),
        forall|i: int|
            0 <= i < transactions@.len() ==> out.1@[i] as int == tx_settled(
                transactions@[i].0,
                basis_of(transactions@),
            ),
{
    let ghost rows = transactions@;
    let mut basis_acc: i128 = 0;
    let mut i: usize = 0;
    while i < transactions.len()
        invariant
            0 <= i <= rows.len(),
            rows == transactions@,
            basis_acc == basis_of(rows.take(i as int)),
            (i as int) * (i64::MIN as int) <= basis_acc <= (i as int) * (i64::MAX as int),
        decreases rows.len() - i,
    {
        let row = vstd::slice::slice_index_get(transactions, i);
        proof {
            assert(rows.take(i + 1).drop_last() =~= rows.take(i as int));
            assert(rows.take(i + 1).last() == rows[i as int]);
            assert((i + 1) * (i64::MIN as int) == (i as int) * (i64::MIN as int) + i64::MIN);
            assert((i + 1) * (i64::MAX as int) == (i as int) * (i64::MAX as int) + i64::MAX);
        }
        match row.0.amount {
            Some(a) => {
                basis_acc = basis_acc + (a as i128);
            },
            None => {},
        }
        i = i + 1;
    }
    proof {
        assert(rows.take(rows.len() as int) =~= rows);
    }
    let basis: i64 = basis_acc as i64;
    let mut amounts: Vec<i64> = Vec::new();
    let mut total_acc: i128 = 0;
    let mut j: usize = 0;
    while j < transactions.len()
        invariant
            0 <= j <= rows.len(),
            rows == transactions@,
            rows_reconcilable(uid, rows),
            basis as int == basis_of(rows),
            amounts@.len() == j,
            forall|k: int| 0 <= k < j ==> amounts@[k] as int == tx_settled(rows[k].0, basis as int),
            total_acc == total_of(uid, rows.take(j as int), basis as int),
            (j as int) * (i64::MIN as int) <= total_acc <= (j as int) * (i64::MAX as int),
        decreases rows.len() - j,
    {
        let row = vstd::slice::slice_index_get(transactions, j);
        let settled: i64 = match row.0.amount {
            Some(a) => a,
            None => match row.0.fraction {
                Some(f) => settle_share(f, basis),
                None => 0,
            },
        };
        proof {
            assert(rows.take(j + 1).drop_last() =~= rows.take(j as int));
            assert(rows.take(j + 1).last() == rows[j as int]);
            assert((j + 1) * (i64::MIN as int) == (j as int) * (i64::MIN as int) + i64::MIN);
            assert((j + 1) * (i64::MAX as int) == (j as int) * (i64::MAX as int) + i64::MAX);
        }
        amounts.push(settled);
        if row.2.is_some() || row.1.user_id == uid {
            total_acc = total_acc + (settled as i128);
        }
        j = j + 1;
    }
    proof {
        assert(rows.take(rows.len() as int) =~= rows);
        lemma_total_splits(uid, rows, basis as int);
    }
    let total: i64 = total_acc as i64;
    (total, amounts)
}

/// With no fixed amount anywhere, reconciliation degrades gracefully: the
/// basis is zero, every settled amount is zero, the total is zero, and the
/// missing-fixed-amount anomaly is reported — rendering never aborts.
pub proof fn lemma_no_fixed_amount_degenerate(
    uid: i32,
    rows: Seq<(ExpenseTransaction, Account, Option<AccountSynchronization>)>,
)
    requires
        forall|i: int| 0 <= i < rows.len() ==> (#[trigger] rows[i]).0.amount is None,
        forall|i: int|
            0 <= i < rows.len() ==> ((#[trigger] rows[i]).0.fraction matches Some(f) ==>
            f.bounded()),
    ensures
        basis_of(rows) == 0,
        forall|i: int| 0 <= i < rows.len() ==> tx_settled((#[trigger] rows[i]).0, 0) == 0,
        total_of(uid, rows, 0) == 0,
        anomaly_of(rows) == Some(AmountAnomaly::NoFixedAmount),
    decreases rows.len(),
{
    assert forall|i: int| 0 <= i < rows.len() implies tx_settled((#[trigger] rows[i]).0, 0) == 0 by {
        let t = rows[i].0;
        if t.fraction is Some {
            let f = t.fraction->0;
            assert(settled_share(f, 0) == 0) by {
                assert(f.num * 0 == 0) by (nonlinear_arith);
                vstd::arithmetic::div_mod::lemma_div_basics(f.den as int);
            }
        }
    }
    if rows.len() > 0 {
        lemma_no_fixed_amount_degenerate(uid, rows.drop_last());
        assert(tx_settled(rows.last().0, 0) == 0);
    }
}

/// The index of the first element of `s` whose key equals `id`, or the
/// length of `s` when there is none: how far a skip-while scan travels.
pub open spec fn run_start<T>(s: Seq<T>, eid: spec_fn(T) -> i32, id: i32) -> int
    decreases s.len(),
{
    if s.len() == 0 {
        0
    } else if eid(s[0]) == id {
        0
    } else {
        1 + run_start(s.skip(1), eid, id)
    }
}

/// The length of the longest prefix of `s` whose keys all equal `id`: how
/// far a take-while scan travels.
pub open spec fn run_len<T>(s: Seq<T>, eid: spec_fn(T) -> i32, id: i32) -> int
    decreases s.len(),
{
    if s.len() == 0 || eid(s[0]) != id {
        0
    } else {
        1 + run_len(s.skip(1), eid, id)
    }
}

/// The contiguous run of elements keyed `id` that a skip-while-then-
/// take-while scan of `s` slices out: the child records of expense `id` in a
/// sequence sorted by owning expense.
pub open spec fn child_run<T>(s: Seq<T>, eid: spec_fn(T) -> i32, id: i32) -> Seq<T> {
    let lo = run_start(s, eid, id);
    s.subrange(lo, lo + run_len(s.skip(lo), eid, id))
}

pub proof fn lemma_run_start_bounds<T>(s: Seq<T>, eid: spec_fn(T) -> i32, id: i32)
    ensures
        0 <= run_start(s, eid, id) <= s.len(),
    decreases s.len(),
{
    if s.len() > 0 && eid(s[0]) != id {
        lemma_run_start_bounds(s.skip(1), eid, id);
    }
}

pub proof fn lemma_run_len_bounds<T>(s: Seq<T>, eid: spec_fn(T) -> i32, id: i32)
    ensures
        0 <= run_len(s, eid, id) <= s.len(),
    decreases s.len(),
{
    if s.len() > 0 && eid(s[0]) == id {
        lemma_run_len_bounds(s.skip(1), eid, id);
    }
}

/// Pins `run_start` down: a position preceded only by non-matching keys and
/// itself matching (or the end) is where the skip-while scan stops.
pub proof fn lemma_run_start_at<T>(s: Seq<T>, eid: spec_fn(T) -> i32, id: i32, k: int)
    requires
        0 <= k <= s.len(),
        forall|j: int| 0 <= j < k ==> eid(#[trigger] s[j]) != id,
        k < s.len() ==> eid(s[k]) == id,
    ensures
        run_start(s, eid, id) == k,
    decreases k,
{
    if k == 0 {
    } else {
        assert(eid(s[0]) != id);
        lemma_run_start_at(s.skip(1), eid, id, k - 1);
    }
}

/// Pins `run_len` down: a prefix of matching keys closed off by a
/// non-matching key (or the end) is what the take-while scan collects.
pub proof fn lemma_run_len_at<T>(s: Seq<T>, eid: spec_fn(T) -> i32, id: i32, m: int)
    requires
        0 <= m <= s.len(),
        forall|j: int| 0 <= j < m ==> eid(#[trigger] s[j]) == id,
        m < s.len() ==> eid(s[m]) != id,
    ensures
        run_len(s, eid, id) == m,
    decreases m,
{
    if m == 0 {
    } else {
        assert(eid(s[0]) == id);
        lemma_run_len_at(s.skip(1), eid, id, m - 1);
    }
}

/// Dropping a prefix of non-matching elements does not change the extracted
/// run: the slice a cursor-advanced suffix yields equals the slice the whole
/// sequence yields.
pub proof fn lemma_child_run_skip<T>(s: Seq<T>, eid: spec_fn(T) -> i32, id: i32, p: int)
    requires
        0 <= p <= s.len(),
        forall|j: int| 0 <= j < p ==> eid(#[trigger] s[j]) != id,
    ensures
        child_run(s.skip(p), eid, id) == child_run(s, eid, id),
    decreases p,
{
    if p == 0 {
        assert(s.skip(0) =~= s);
    } else {
        assert(eid(s[0]) != id);
        let lo1 = run_start(s.skip(1), eid, id);
        lemma_run_start_bounds(s.skip(1), eid, id);
        assert(run_start(s, eid, id) == 1 + lo1);
        assert(s.skip(1).skip(lo1) =~= s.skip(1 + lo1));
        let m = run_len(s.skip(1 + lo1), eid, id);
        lemma_run_len_bounds(s.skip(1 + lo1), eid, id);
        assert(child_run(s, eid, id) == s.subrange(1 + lo1, 1 + lo1 + m));
        assert(child_run(s.skip(1), eid, id) == s.skip(1).subrange(lo1, lo1 + m));
        assert(s.subrange(1 + lo1, 1 + lo1 + m) =~= s.skip(1).subrange(lo1, lo1 + m));
        lemma_child_run_skip(s.skip(1), eid, id, p - 1);
        assert(s.skip(1).skip(p - 1) =~= s.skip(p));
    }
}

/// The owning-expense key of a transaction row.
pub open spec fn tx_eid() -> spec_fn((ExpenseTransaction, Account, Option<AccountSynchronization>)) -> i32 {
    |row: (ExpenseTransaction, Account, Option<AccountSynchronization>)| row.0.expense_id
}

/// The owning-expense key of a category row.
pub open spec fn cat_eid() -> spec_fn((ExpenseCategory, Option<CategoryReplacement>)) -> i32 {
    |row: (ExpenseCategory, Option<CategoryReplacement>)| row.0.expense_id
}

/// The owning-expense key of a receipt.
pub open spec fn receipt_eid() -> spec_fn(ExpenseReceipt) -> i32 {
    |r: ExpenseReceipt| r.expense_id
}

/// The owning-expense key of an event.
pub open spec fn event_eid() -> spec_fn(ExpenseEvent) -> i32 {
    |e: ExpenseEvent| e.expense_id
}

/// The transaction rows of expense `id`, as the skip/take scan finds them.
pub open spec fn tx_run(
    s: Seq<(ExpenseTransaction, Account, Option<AccountSynchronization>)>,
    id: i32,
) -> Seq<(ExpenseTransaction, Account, Option<AccountSynchronization>)> {
    child_run(s, tx_eid(), id)
}

/// The category rows of expense `id`, as the skip/take scan finds them.
pub open spec fn cat_run(s: Seq<(ExpenseCategory, Option<CategoryReplacement>)>, id: i32) -> Seq<
    (ExpenseCategory, Option<CategoryReplacement>),
> {
    child_run(s, cat_eid(), id)
}

/// The receipts of expense `id`, as the skip/take scan finds them.
pub open spec fn receipt_run(s: Seq<ExpenseReceipt>, id: i32) -> Seq<ExpenseReceipt> {
    child_run(s, receipt_eid(), id)
}

/// The events of expense `id`, as the skip/take scan finds them.
pub open spec fn event_run(s: Seq<ExpenseEvent>, id: i32) -> Seq<ExpenseEvent> {
    child_run(s, event_eid(), id)
}

/// A transaction after its synchronization link is applied: the account
/// moves to the other side of the pair, and when the link inverts, the fixed
/// amount and the fraction flip sign.
pub open spec fn resolved_transaction(t: ExpenseTransaction, sync: Option<
    AccountSynchronization,
>) -> ExpenseTransaction {
    match sync {
        None => t,
        Some(s) => ExpenseTransaction {
            account_id: crate::resolve::sync_counterpart(t.account_id, s),
            amount: if s.invert {
                match t.amount {
                    Some(a) => Some((-(a as int)) as i64),
                    None => None,
                }
            } else {
                t.amount
            },
            fraction: if s.invert {
                match t.fraction {
                    Some(f) => Some(f.spec_neg()),
                    None => None,
                }
            } else {
                t.fraction
            },
            ..t
        },
    }
}

/// Transaction rows after per-row synchronization resolution.
pub open spec fn resolved_rows(
    rows: Seq<(ExpenseTransaction, Account, Option<AccountSynchronization>)>,
) -> Seq<(ExpenseTransaction, Account, Option<AccountSynchronization>)> {
    rows.map_values(
        |row: (ExpenseTransaction, Account, Option<AccountSynchronization>)|
            (resolved_transaction(row.0, row.2), row.1, row.2),
    )
}

/// Resolving a transaction is exactly the account resolver's verdict applied
/// to the record: the account moves where the resolver redirects it, and the
/// fixed amount and the fraction are each multiplied by the resolver's sign.
pub proof fn lemma_resolution_applies_sign(t: ExpenseTransaction, sync: Option<
    AccountSynchronization,
>)
    requires
        t.fraction matches Some(f) ==> f.bounded(),
        (sync matches Some(s) && s.invert) ==> t.amount != Some(i64::MIN),
    ensures
        resolved_transaction(t, sync).account_id == crate::resolve::resolve_account_spec(
            t.account_id,
            sync,
        ).0,
        amount_or_zero(resolved_transaction(t, sync)) == crate::resolve::resolve_account_spec(
            t.account_id,
            sync,
        ).1 * amount_or_zero(t),
        match t.fraction {
            Some(f) => resolved_transaction(t, sync).fraction == Some(
                Ratio {
                    num: (crate::resolve::resolve_account_spec(t.account_id, sync).1 * f.num)
                        as i64,
                    den: f.den,
                },
            ),
            None => resolved_transaction(t, sync).fraction is None,
        },
{
    let sign = crate::resolve::resolve_account_spec(t.account_id, sync).1;
    let out = resolved_transaction(t, sync);
    match sync {
        None => {
            assert(sign == 1);
            assert(amount_or_zero(out) == 1 * amount_or_zero(t));
            if t.fraction is Some {
                let f = t.fraction->0;
                assert(1 * f.num == f.num);
                assert(out.fraction == Some(Ratio { num: (1 * f.num) as i64, den: f.den }));
            }
        },
        Some(s) => {
            if s.invert {
                assert(sign == -1);
                match t.amount {
                    Some(a) => {
                        assert(amount_or_zero(out) == -1 * amount_or_zero(t));
                    },
                    None => {
                        assert(amount_or_zero(out) == 0);
                    },
                }
                if t.fraction is Some {
                    let f = t.fraction->0;
                    assert(out.fraction == Some(f.spec_neg()));
                    assert(f.spec_neg() == Ratio { num: (-1 * f.num) as i64, den: f.den });
                }
            } else {
                assert(sign == 1);
                assert(amount_or_zero(out) == 1 * amount_or_zero(t));
                if t.fraction is Some {
                    let f = t.fraction->0;
                    assert(out.fraction == Some(Ratio { num: (1 * f.num) as i64, den: f.den }));
                }
            }
        },
    }
}

/// A category association after its per-user replacement is applied.
pub open spec fn replaced_category(c: ExpenseCategory, r: Option<
    CategoryReplacement,
>) -> ExpenseCategory {
    ExpenseCategory {
        category_id: crate::resolve::resolve_category_spec(c.category_id, r),
        ..c
    }
}

/// Category rows after per-row replacement resolution.
pub open spec fn replaced_categories(
    rows: Seq<(ExpenseCategory, Option<CategoryReplacement>)>,
) -> Seq<ExpenseCategory> {
    rows.map_values(
        |row: (ExpenseCategory, Option<CategoryReplacement>)| replaced_category(row.0, row.1),
    )
}

/// What per-row resolution needs of a transaction row: a bounded fraction,
/// and no fixed amount whose sign flip would not be representable.
pub open spec fn row_resolvable(
    row: (ExpenseTransaction, Account, Option<AccountSynchronization>),
) -> bool {
    &&& (row.0.fraction matches Some(f) ==> f.bounded())
    &&& ((row.2 matches Some(s) && s.invert) ==> row.0.amount != Some(i64::MIN))
}

/// Every row of the sequence is resolvable.
pub open spec fn rows_resolvable(
    rows: Seq<(ExpenseTransaction, Account, Option<AccountSynchronization>)>,
) -> bool {
    forall|i: int| 0 <= i < rows.len() ==> row_resolvable(#[trigger] rows[i])
}

/// A sequence ordered ascending (not necessarily strictly) by a key.
pub open spec fn sorted_by_key<T>(s: Seq<T>, eid: spec_fn(T) -> i32) -> bool {
    forall|i: int, j: int| 0 <= i < j < s.len() ==> eid(#[trigger] s[i]) <= eid(#[trigger] s[j])
}

/// Expenses ordered ascending by identity.
pub open spec fn expenses_sorted(s: Seq<Expense>) -> bool {
    forall|i: int, j: int| 0 <= i < j < s.len() ==> (#[trigger] s[i]).id <= (#[trigger] s[j]).id
}

/// An expense rendered for one viewing user: the record, its resolved child
/// records, the total settled amount attributable to the viewer, and one
/// settled amount per transaction.
#[derive(Debug, PartialEq, Eq)]
pub struct RenderedExpense {
    pub info: Expense,
    pub events: Vec<ExpenseEvent>,
    pub receipts: Vec<ExpenseReceipt>,
    pub categories: Vec<ExpenseCategory>,
    pub transactions: Vec<ExpenseTransaction>,
    pub total_amount: i64,
    pub calculated_amounts: Vec<i64>,
}

/// The mathematical value of a rendered expense.
#[verifier::ext_equal]
pub struct RenderedExpenseView {
    pub info: Expense,
    pub events: Seq<ExpenseEvent>,
    pub receipts: Seq<ExpenseReceipt>,
    pub categories: Seq<ExpenseCategory>,
    pub transactions: Seq<ExpenseTransaction>,
    pub total_amount: int,
    pub calculated_amounts: Seq<int>,
}

impl View for RenderedExpense {
    type V = RenderedExpenseView;

    open spec fn view(&self) -> RenderedExpenseView {
        RenderedExpenseView {
            info: self.info,
            events: self.events@,
            receipts: self.receipts@,
            categories: self.categories@,
            transactions: self.transactions@,
            total_amount: self.total_amount as int,
            calculated_amounts: self.calculated_amounts@.map_values(|a: i64| a as int),
        }
    }
}

/// What rendering one expense from its own child rows produces: the
/// transactions are synchronization-resolved, the categories replacement-
/// resolved, the receipts and events kept, and the amounts reconciled
/// against the resolved rows.
pub open spec fn render_view(
    uid: i32,
    info: Expense,
    transactions: Seq<(ExpenseTransaction, Account, Option<AccountSynchronization>)>,
    categories: Seq<(ExpenseCategory, Option<CategoryReplacement>)>,
    receipts: Seq<ExpenseReceipt>,
    events: Seq<ExpenseEvent>,
) -> RenderedExpenseView {
    let rrows = resolved_rows(transactions);
    let basis = basis_of(rrows);
    RenderedExpenseView {
        info,
        events,
        receipts,
        categories: replaced_categories(categories),
        transactions: rrows.map_values(
            |row: (ExpenseTransaction, Account, Option<AccountSynchronization>)| row.0,
        ),
        total_amount: total_of(uid, rrows, basis),
        calculated_amounts: Seq::new(rrows.len(), |i: int| tx_settled(rrows[i].0, basis)),
    }
}

/// What rendering one expense against whole (sorted) child collections
/// produces: the expense's runs are sliced out of each collection first,
/// then rendered as [`render_view`] says. This is the per-expense step of
/// the naive approach, and the merge-join renderer is proved equal to it.
pub open spec fn filter_render_view(
    uid: i32,
    info: Expense,
    transactions: Seq<(ExpenseTransaction, Account, Option<AccountSynchronization>)>,
    categories: Seq<(ExpenseCategory, Option<CategoryReplacement>)>,
    receipts: Seq<ExpenseReceipt>,
    events: Seq<ExpenseEvent>,
) -> RenderedExpenseView {
    render_view(
        uid,
        info,
        tx_run(transactions, info.id),
        cat_run(categories, info.id),
        receipt_run(receipts, info.id),
        event_run(events, info.id),
    )
}

/// Applies a transaction's synchronization link, if one was supplied:
/// redirects the account to the other side of the pair and flips the signs
/// of the amount and the fraction when the link inverts.
fn resolve_transaction(t: ExpenseTransaction, sync: Option<AccountSynchronization>) -> (out:
    ExpenseTransaction)
    requires
        (t.fraction matches Some(f) ==> f.bounded()),
        ((sync matches Some(s) && s.invert) ==> t.amount != Some(i64::MIN)),
    ensures
        out == resolved_transaction(t, sync),
{
    let mut t = t;
    if let Some(s) = sync {
        if s.invert {
            t.amount = match t.amount {
                Some(a) => Some(-a),
                None => None,
            };
            t.fraction = match t.fraction {
                Some(f) => Some(Ratio { num: -f.num, den: f.den }),
                None => None,
            };
        }
        t.account_id = if s.account1 == t.account_id {
            s.account2
        } else {
            s.account1
        };
    }
    t
}

impl RenderedExpense {
    /// Renders one expense from its own child rows, already fetched for
    /// exactly this expense: resolves each transaction across its
    /// synchronization link, each category across its replacement, and
    /// reconciles the settled amounts for the viewing user.
    pub fn render(
        uid: i32,
        info: Expense,
        transactions: Vec<(ExpenseTransaction, Account, Option<AccountSynchronization>)>,
        categories: Vec<(ExpenseCategory, Option<CategoryReplacement>)>,
        receipts: Vec<ExpenseReceipt>,
        events: Vec<ExpenseEvent>,
    ) -> (out: RenderedExpense)
        requires
            rows_resolvable(transactions@),
            rows_reconcilable(uid, resolved_rows(transactions@)),
        ensures
            out@ == render_view(uid, info, transactions@, categories@, receipts@, events@),
    {
        let ghost tsv = transactions@;
        let ghost csv = categories@;
        let mut rrows: Vec<(ExpenseTransaction, Account, Option<AccountSynchronization>)> =
            Vec::new();
        let mut i: usize = 0;
        while i < transactions.len()
            invariant
                0 <= i <= tsv.len(),
                transactions@ == tsv,
                rows_resolvable(tsv),
                rrows@ == resolved_rows(tsv).take(i as int),
            decreases tsv.len() - i,
        {
            let row = vstd::slice::slice_index_get(transactions.as_slice(), i);
            let t = row.0.clone();
            let a = row.1.clone();
            let s = row.2;
            let rt = resolve_transaction(t, s);
            rrows.push((rt, a, s));
            proof {
                assert(rrows@ =~= resolved_rows(tsv).take(i + 1));
            }
            i = i + 1;
        }
        proof {
            assert(resolved_rows(tsv).take(tsv.len() as int) =~= resolved_rows(tsv));
        }
        let (total_amount, calculated_amounts) = calculate_total_amount(
            uid,
            &info,
            rrows.as_slice(),
        );
        let mut rcats: Vec<ExpenseCategory> = Vec::new();
        let mut j: usize = 0;
        while j < categories.len()
            invariant
                0 <= j <= csv.len(),
                categories@ == csv,
                rcats@ == replaced_categories(csv).take(j as int),
            decreases csv.len() - j,
        {
            let row = vstd::slice::slice_index_get(categories.as_slice(), j);
            let c = row.0;
            let resolved_id = crate::resolve::resolve_category(c.category_id, &row.1);
            rcats.push(
                ExpenseCategory {
                    expense_id: c.expense_id,
                    category_id: resolved_id,
                    weight: c.weight,
                },
            );
            proof {
                assert(rcats@ =~= replaced_categories(csv).take(j + 1));
            }
            j = j + 1;
        }
        proof {
            assert(replaced_categories(csv).take(csv.len() as int) =~= replaced_categories(csv));
        }
        let mut touts: Vec<ExpenseTransaction> = Vec::new();
        let mut k: usize = 0;
        while k < rrows.len()
            invariant
                0 <= k <= rrows@.len(),
                rrows@ == resolved_rows(tsv),
                touts@ == resolved_rows(tsv).map_values(
                    |row: (ExpenseTransaction, Account, Option<AccountSynchronization>)| row.0,
                ).take(k as int),
            decreases rrows@.len() - k,
        {
            let row = vstd::slice::slice_index_get(rrows.as_slice(), k);
            touts.push(row.0.clone());
            proof {
                assert(touts@ =~= resolved_rows(tsv).map_values(
                    |row: (ExpenseTransaction, Account, Option<AccountSynchronization>)| row.0,
                ).take(k + 1));
            }
            k = k + 1;
        }
        let out = RenderedExpense {
            info,
            categories: rcats,
            events,
            transactions: touts,
            receipts,
            total_amount,
            calculated_amounts,
        };
        proof {
            assert(touts@ =~= resolved_rows(tsv).map_values(
                |row: (ExpenseTransaction, Account, Option<AccountSynchronization>)| row.0,
            ));
            assert(out@.calculated_amounts =~= Seq::new(
                resolved_rows(tsv).len(),
                |i: int| tx_settled(resolved_rows(tsv)[i].0, basis_of(resolved_rows(tsv))),
            ));
            assert(out@ =~= render_view(uid, out.info, tsv, csv, out.receipts@, out.events@));
        }
        out
    }
}

/// Slices the run of transaction rows owned by expense `id` out of a
/// sequence sorted by owning expense: skips non-matching rows, then collects
/// matching rows until the first mismatch.
fn extract_tx(
    s: &[(ExpenseTransaction, Account, Option<AccountSynchronization>)],
    id: i32,
) -> (out: Vec<(ExpenseTransaction, Account, Option<AccountSynchronization>)>)
    ensures
        out@ == tx_run(s@, id),
{
    let ghost sv = s@;
    let mut i: usize = 0;
    while i < s.len() && vstd::slice::slice_index_get(s, i).0.expense_id != id
        invariant
            0 <= i <= sv.len(),
            sv == s@,
            forall|j: int| 0 <= j < i ==> (#[trigger] sv[j]).0.expense_id != id,
        decreases sv.len() - i,
    {
        i = i + 1;
    }
    proof {
        lemma_run_start_at(sv, tx_eid(), id, i as int);
    }
    let mut out: Vec<(ExpenseTransaction, Account, Option<AccountSynchronization>)> = Vec::new();
    let ghost lo = i as int;
    let mut j = i;
    while j < s.len() && vstd::slice::slice_index_get(s, j).0.expense_id == id
        invariant
            0 <= lo <= j <= sv.len(),
            run_start(sv, tx_eid(), id) == lo,
            sv == s@,
            forall|k: int| lo <= k < j ==> (#[trigger] sv[k]).0.expense_id == id,
            out@ == sv.subrange(lo, j as int),
        decreases sv.len() - j,
    {
        let row = vstd::slice::slice_index_get(s, j);
        out.push((row.0.clone(), row.1.clone(), row.2));
        proof {
            assert(out@ =~= sv.subrange(lo, j + 1));
        }
        j = j + 1;
    }
    proof {
        lemma_run_len_at(sv.skip(lo), tx_eid(), id, j - lo);
        assert(out@ =~= child_run(sv, tx_eid(), id));
    }
    out
}

/// Slices the run of category rows owned by expense `id` out of a sequence
/// sorted by owning expense.
fn extract_cat(s: &[(ExpenseCategory, Option<CategoryReplacement>)], id: i32) -> (out: Vec<
    (ExpenseCategory, Option<CategoryReplacement>),
>)
    ensures
        out@ == cat_run(s@, id),
{
    let ghost sv = s@;
    let mut i: usize = 0;
    while i < s.len() && vstd::slice::slice_index_get(s, i).0.expense_id != id
        invariant
            0 <= i <= sv.len(),
            sv == s@,
            forall|j: int| 0 <= j < i ==> (#[trigger] sv[j]).0.expense_id != id,
        decreases sv.len() - i,
    {
        i = i + 1;
    }
    proof {
        lemma_run_start_at(sv, cat_eid(), id, i as int);
    }
    let mut out: Vec<(ExpenseCategory, Option<CategoryReplacement>)> = Vec::new();
    let ghost lo = i as int;
    let mut j = i;
    while j < s.len() && vstd::slice::slice_index_get(s, j).0.expense_id == id
        invariant
            0 <= lo <= j <= sv.len(),
            run_start(sv, cat_eid(), id) == lo,
            sv == s@,
            forall|k: int| lo <= k < j ==> (#[trigger] sv[k]).0.expense_id == id,
            out@ == sv.subrange(lo, j as int),
        decreases sv.len() - j,
    {
        let row = vstd::slice::slice_index_get(s, j);
        out.push(*row);
        proof {
            assert(out@ =~= sv.subrange(lo, j + 1));
        }
        j = j + 1;
    }
    proof {
        lemma_run_len_at(sv.skip(lo), cat_eid(), id, j - lo);
        assert(out@ =~= child_run(sv, cat_eid(), id));
    }
    out
}

/// Slices the run of receipts owned by expense `id` out of a sequence
/// sorted by owning expense.
fn extract_receipts(s: &[ExpenseReceipt], id: i32) -> (out: Vec<ExpenseReceipt>)
    ensures
        out@ == receipt_run(s@, id),
{
    let ghost sv = s@;
    let mut i: usize = 0;
    while i < s.len() && vstd::slice::slice_index_get(s, i).expense_id != id
        invariant
            0 <= i <= sv.len(),
            sv == s@,
            forall|j: int| 0 <= j < i ==> (#[trigger] sv[j]).expense_id != id,
        decreases sv.len() - i,
    {
        i = i + 1;
    }
    proof {
        lemma_run_start_at(sv, receipt_eid(), id, i as int);
    }
    let mut out: Vec<ExpenseReceipt> = Vec::new();
    let ghost lo = i as int;
    let mut j = i;
    while j < s.len() && vstd::slice::slice_index_get(s, j).expense_id == id
        invariant
            0 <= lo <= j <= sv.len(),
            run_start(sv, receipt_eid(), id) == lo,
            sv == s@,
            forall|k: int| lo <= k < j ==> (#[trigger] sv[k]).expense_id == id,
            out@ == sv.subrange(lo, j as int),
        decreases sv.len() - j,
    {
        let row = vstd::slice::slice_index_get(s, j);
        out.push(row.clone());
        proof {
            assert(out@ =~= sv.subrange(lo, j + 1));
        }
        j = j + 1;
    }
    proof {
        lemma_run_len_at(sv.skip(lo), receipt_eid(), id, j - lo);
        assert(out@ =~= child_run(sv, receipt_eid(), id));
    }
    out
}

/// Slices the run of events owned by expense `id` out of a sequence sorted
/// by owning expense.
fn extract_events(s: &[ExpenseEvent], id: i32) -> (out: Vec<ExpenseEvent>)
    ensures
        out@ == event_run(s@, id),
{
    let ghost sv = s@;
    let mut i: usize = 0;
    while i < s.len() && vstd::slice::slice_index_get(s, i).expense_id != id
        invariant
            0 <= i <= sv.len(),
            sv == s@,
            forall|j: int| 0 <= j < i ==> (#[trigger] sv[j]).expense_id != id,
        decreases sv.len() - i,
    {
        i = i + 1;
    }
    proof {
        lemma_run_start_at(sv, event_eid(), id, i as int);
    }
    let mut out: Vec<ExpenseEvent> = Vec::new();
    let ghost lo = i as int;
    let mut j = i;
    while j < s.len() && vstd::slice::slice_index_get(s, j).expense_id == id
        invariant
            0 <= lo <= j <= sv.len(),
            run_start(sv, event_eid(), id) == lo,
            sv == s@,
            forall|k: int| lo <= k < j ==> (#[trigger] sv[k]).expense_id == id,
            out@ == sv.subrange(lo, j as int),
        decreases sv.len() - j,
    {
        let row = vstd::slice::slice_index_get(s, j);
        out.push(row.clone());
        proof {
            assert(out@ =~= sv.subrange(lo, j + 1));
        }
        j = j + 1;
    }
    proof {
        lemma_run_len_at(sv.skip(lo), event_eid(), id, j - lo);
        assert(out@ =~= child_run(sv, event_eid(), id));
    }
    out
}

impl RenderedExpense {
    /// Renders one expense against whole child collections sorted by owning
    /// expense: slices this expense's runs out of each collection with a
    /// skip-then-take-while scan, then renders them exactly as
    /// [`RenderedExpense::render`] would.
    pub fn filter_and_render(
        uid: i32,
        info: Expense,
        transactions: &[(ExpenseTransaction, Account, Option<AccountSynchronization>)],
        categories: &[(ExpenseCategory, Option<CategoryReplacement>)],
        receipts: &[ExpenseReceipt],
        events: &[ExpenseEvent],
    ) -> (out: RenderedExpense)
        requires
            rows_resolvable(tx_run(transactions@, info.id)),
            rows_reconcilable(uid, resolved_rows(tx_run(transactions@, info.id))),
        ensures
            out@ == filter_render_view(uid, info, transactions@, categories@, receipts@, events@),
    {
        let id = info.id;
        let ts = extract_tx(transactions, id);
        let cs = extract_cat(categories, id);
        let rs = extract_receipts(receipts, id);
        let es = extract_events(events, id);
        RenderedExpense::render(uid, info, ts, cs, rs, es)
    }
}

impl RenderedExpense {
    /// Renders every expense of a sorted batch against the four sorted child
    /// collections with one monotonic cursor per collection: each cursor
    /// only ever advances past rows owned by expenses already rendered, so
    /// the whole batch takes one linear pass instead of one scan per
    /// expense.
    ///
    /// The contract is the order-invariance law of this optimization: each
    /// output element equals what the naive per-expense
    /// [`RenderedExpense::filter_and_render`] over the same whole, unsliced
    /// collections produces — `filter_render_view` of the full sequences —
    /// in primary order.
    pub fn render_all(
        uid: i32,
        expenses: Vec<Expense>,
        transactions: &[(ExpenseTransaction, Account, Option<AccountSynchronization>)],
        categories: &[(ExpenseCategory, Option<CategoryReplacement>)],
        receipts: &[ExpenseReceipt],
        events: &[ExpenseEvent],
    ) -> (out: Vec<RenderedExpense>)
        requires
            expenses_sorted(expenses@),
            sorted_by_key(transactions@, tx_eid()),
            sorted_by_key(categories@, cat_eid()),
            sorted_by_key(receipts@, receipt_eid()),
            sorted_by_key(events@, event_eid()),
            forall|k: int|
                0 <= k < expenses@.len() ==> rows_resolvable(
                    tx_run(transactions@, (#[trigger] expenses@[k]).id),
                ),
            forall|k: int|
                0 <= k < expenses@.len() ==> rows_reconcilable(
                    uid,
                    resolved_rows(tx_run(transactions@, (#[trigger] expenses@[k]).id)),
                ),
        ensures
            out@.len() == expenses@.len(),
            forall|k: int|
                0 <= k < expenses@.len() ==> (#[trigger] out@[k])@ == filter_render_view(
                    uid,
                    expenses@[k],
                    transactions@,
                    categories@,
                    receipts@,
                    events@,
                ),
    {
        let ghost expv = expenses@;
        let ghost tsv = transactions@;
        let ghost csv = categories@;
        let ghost rsv = receipts@;
        let ghost esv = events@;
        let mut rexps: Vec<RenderedExpense> = Vec::new();
        let mut t_i: usize = 0;
        let mut c_i: usize = 0;
        let mut r_i: usize = 0;
        let mut e_i: usize = 0;
        let mut k: usize = 0;
        while k < expenses.len()
            invariant
                0 <= k <= expv.len(),
                expenses@ == expv,
                transactions@ == tsv,
                categories@ == csv,
                receipts@ == rsv,
                events@ == esv,
                expenses_sorted(expv),
                forall|x: int|
                    0 <= x < expv.len() ==> rows_resolvable(
                        tx_run(tsv, (#[trigger] expv[x]).id),
                    ),
                forall|x: int|
                    0 <= x < expv.len() ==> rows_reconcilable(
                        uid,
                        resolved_rows(tx_run(tsv, (#[trigger] expv[x]).id)),
                    ),
                t_i <= tsv.len(),
                c_i <= csv.len(),
                r_i <= rsv.len(),
                e_i <= esv.len(),
                k == 0 ==> t_i == 0 && c_i == 0 && r_i == 0 && e_i == 0,
                k > 0 ==> forall|j: int|
                    0 <= j < t_i ==> (#[trigger] tsv[j]).0.expense_id < expv[k - 1].id,
                k > 0 ==> forall|j: int|
                    0 <= j < c_i ==> (#[trigger] csv[j]).0.expense_id < expv[k - 1].id,
                k > 0 ==> forall|j: int|
                    0 <= j < r_i ==> (#[trigger] rsv[j]).expense_id < expv[k - 1].id,
                k > 0 ==> forall|j: int|
                    0 <= j < e_i ==> (#[trigger] esv[j]).expense_id < expv[k - 1].id,
                rexps@.len() == k,
                forall|x: int|
                    0 <= x < k ==> (#[trigger] rexps@[x])@ == filter_render_view(
                        uid,
                        expv[x],
                        tsv,
                        csv,
                        rsv,
                        esv,
                    ),
            decreases expv.len() - k,
        {
            let e = vstd::slice::slice_index_get(expenses.as_slice(), k);
            let e_id = e.id;
            while t_i < transactions.len() && vstd::slice::slice_index_get(
                transactions,
                t_i,
            ).0.expense_id < e_id
                invariant
                    0 <= t_i <= tsv.len(),
                    transactions@ == tsv,
                    forall|j: int| 0 <= j < t_i ==> (#[trigger] tsv[j]).0.expense_id < e_id,
                decreases tsv.len() - t_i,
            {
                t_i = t_i + 1;
            }
            while c_i < categories.len() && vstd::slice::slice_index_get(
                categories,
                c_i,
            ).0.expense_id < e_id
                invariant
                    0 <= c_i <= csv.len(),
                    categories@ == csv,
                    forall|j: int| 0 <= j < c_i ==> (#[trigger] csv[j]).0.expense_id < e_id,
                decreases csv.len() - c_i,
            {
                c_i = c_i + 1;
            }
            while r_i < receipts.len() && vstd::slice::slice_index_get(receipts, r_i).expense_id
                < e_id
                invariant
                    0 <= r_i <= rsv.len(),
                    receipts@ == rsv,
                    forall|j: int| 0 <= j < r_i ==> (#[trigger] rsv[j]).expense_id < e_id,
                decreases rsv.len() - r_i,
            {
                r_i = r_i + 1;
            }
            while e_i < events.len() && vstd::slice::slice_index_get(events, e_i).expense_id < e_id
                invariant
                    0 <= e_i <= esv.len(),
                    events@ == esv,
                    forall|j: int| 0 <= j < e_i ==> (#[trigger] esv[j]).expense_id < e_id,
                decreases esv.len() - e_i,
            {
                e_i = e_i + 1;
            }
            proof {
                assert(tsv.subrange(t_i as int, tsv.len() as int) =~= tsv.skip(t_i as int));
                assert(csv.subrange(c_i as int, csv.len() as int) =~= csv.skip(c_i as int));
                assert(rsv.subrange(r_i as int, rsv.len() as int) =~= rsv.skip(r_i as int));
                assert(esv.subrange(e_i as int, esv.len() as int) =~= esv.skip(e_i as int));
                lemma_child_run_skip(tsv, tx_eid(), e_id, t_i as int);
                lemma_child_run_skip(csv, cat_eid(), e_id, c_i as int);
                lemma_child_run_skip(rsv, receipt_eid(), e_id, r_i as int);
                lemma_child_run_skip(esv, event_eid(), e_id, e_i as int);
            }
            let rexp = RenderedExpense::filter_and_render(
                uid,
                e.clone(),
                vstd::slice::slice_subrange(transactions, t_i, transactions.len()),
                vstd::slice::slice_subrange(categories, c_i, categories.len()),
                vstd::slice::slice_subrange(receipts, r_i, receipts.len()),
                vstd::slice::slice_subrange(events, e_i, events.len()),
            );
            rexps.push(rexp);
            k = k + 1;
        }
        rexps
    }
}

impl RenderedExpense {
    /// Renders every expense of a batch by scanning the whole child
    /// collections once per expense: the straightforward counterpart of
    /// [`RenderedExpense::render_all`]. The two contracts promise the same
    /// output element for element — the merge-join optimization is
    /// observably equivalent to this naive pass, which needs no ordering of
    /// the inputs.
    pub fn render_all_naive(
        uid: i32,
        expenses: Vec<Expense>,
        transactions: &[(ExpenseTransaction, Account, Option<AccountSynchronization>)],
        categories: &[(ExpenseCategory, Option<CategoryReplacement>)],
        receipts: &[ExpenseReceipt],
        events: &[ExpenseEvent],
    ) -> (out: Vec<RenderedExpense>)
        requires
            forall|k: int|
                0 <= k < expenses@.len() ==> rows_resolvable(
                    tx_run(transactions@, (#[trigger] expenses@[k]).id),
                ),
            forall|k: int|
                0 <= k < expenses@.len() ==> rows_reconcilable(
                    uid,
                    resolved_rows(tx_run(transactions@, (#[trigger] expenses@[k]).id)),
                ),
        ensures
            out@.len() == expenses@.len(),
            forall|k: int|
                0 <= k < expenses@.len() ==> (#[trigger] out@[k])@ == filter_render_view(
                    uid,
                    expenses@[k],
                    transactions@,
                    categories@,
                    receipts@,
                    events@,
                ),
    {
        let ghost expv = expenses@;
        let mut rexps: Vec<RenderedExpense> = Vec::new();
        let mut k: usize = 0;
        while k < expenses.len()
            invariant
                0 <= k <= expv.len(),
                expenses@ == expv,
                forall|x: int|
                    0 <= x < expv.len() ==> rows_resolvable(
                        tx_run(transactions@, (#[trigger] expv[x]).id),
                    ),
                forall|x: int|
                    0 <= x < expv.len() ==> rows_reconcilable(
                        uid,
                        resolved_rows(tx_run(transactions@, (#[trigger] expv[x]).id)),
                    ),
                rexps@.len() == k,
                forall|x: int|
                    0 <= x < k ==> (#[trigger] rexps@[x])@ == filter_render_view(
                        uid,
                        expv[x],
                        transactions@,
                        categories@,
                        receipts@,
                        events@,
                    ),
            decreases expv.len() - k,
        {
            let e = vstd::slice::slice_index_get(expenses.as_slice(), k);
            let rexp = RenderedExpense::filter_and_render(
                uid,
                e.clone(),
                transactions,
                categories,
                receipts,
                events,
            );
            rexps.push(rexp);
            k = k + 1;
        }
        rexps
    }
}

/// An account together with its synchronization link, if any.
#[derive(Debug, PartialEq, Eq)]
pub struct RenderedAccount {
    pub info: Account,
    pub synchronization: Option<AccountSynchronization>,
}

/// A category together with the original categories that now replace into it
/// for the viewing user.
#[derive(Debug, PartialEq, Eq)]
pub struct RenderedCategory {
    pub info: Category,
    pub replaces: Vec<i32>,
}

/// A balance seen from the viewing user's perspective.
pub type RenderedBalance = Balance;

/// The originals of all replacements in `replacements` whose target is the
/// category `id`, in order.
pub open spec fn replaces_of(replacements: Seq<CategoryReplacement>, id: i32) -> Seq<i32>
    decreases replacements.len(),
{
    if replacements.len() == 0 {
        Seq::empty()
    } else {
        replaces_of(replacements.drop_last(), id) + if replacements.last().replacement == id {
            seq![replacements.last().original]
        } else {
            Seq::empty()
        }
    }
}

/// A balance after redirection across `account_sync`: the account moves to
/// the other side of the link and the amount's sign flips when the link
/// inverts.
pub open spec fn render_balance_spec(balance: Balance, account_sync: Option<
    AccountSynchronization,
>) -> Balance {
    match account_sync {
        None => balance,
        Some(s) => Balance {
            account_id: crate::resolve::sync_counterpart(balance.account_id, s),
            amount: if s.invert {
                (-(balance.amount as int)) as i64
            } else {
                balance.amount
            },
            ..balance
        },
    }
}

impl RenderedBalance {
    /// Renders a balance for the viewing user by applying its account
    /// synchronization link, if one was supplied.
    pub fn render(balance: Balance, account_sync: Option<AccountSynchronization>) -> (out:
        RenderedBalance)
        requires
            (account_sync matches Some(s) && s.invert) ==> balance.amount != i64::MIN,
        ensures
            out == render_balance_spec(balance, account_sync),
    {
        let mut balance = balance;
        if let Some(sync) = account_sync {
            balance.account_id = if sync.account1 == balance.account_id {
                sync.account2
            } else {
                sync.account1
            };
            balance.amount = if sync.invert {
                -balance.amount
            } else {
                balance.amount
            };
        }
        balance
    }
}

impl RenderedCategory {
    /// Renders a category: keeps the record and lists which original
    /// categories replace into it, by a linear scan of the viewer's
    /// replacement set.
    pub fn render(category: Category, replaces: &[CategoryReplacement]) -> (out: RenderedCategory)
        ensures
            out.info == category,
            out.replaces@ == replaces_of(replaces@, category.id),
    {
        let ghost all = replaces@;
        let id = category.id;
        let mut originals: Vec<i32> = Vec::new();
        let mut i: usize = 0;
        while i < replaces.len()
            invariant
                0 <= i <= all.len(),
                all == replaces@,
                originals@ == replaces_of(all.take(i as int), id),
            decreases all.len() - i,
        {
            let r = vstd::slice::slice_index_get(replaces, i);
            if r.replacement == id {
                originals.push(r.original);
            }
            proof {
                assert(all.take(i + 1 as int).drop_last() =~= all.take(i as int));
                assert(all.take(i + 1 as int).last() == all[i as int]);
            }
            i = i + 1;
        }
        proof {
            assert(all.take(all.len() as int) =~= all);
        }
        RenderedCategory { replaces: originals, info: category }
    }
}

} // verus!
