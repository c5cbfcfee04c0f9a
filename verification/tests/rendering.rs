use moneta::enums::AccountAvailability;
use moneta::enums::AccountKind;
use moneta::enums::AccountRisk;
use moneta::models::Account;
use moneta::models::AccountSynchronization;
use moneta::models::Balance;
use moneta::models::Category;
use moneta::models::CategoryReplacement;
use moneta::models::Expense;
use moneta::models::ExpenseCategory;
use moneta::models::ExpenseReceipt;
use moneta::models::ExpenseTransaction;
use moneta::money::settle_share;
use moneta::money::Ratio;
use moneta::rendering::amount_anomaly;
use moneta::rendering::calculate_total_amount;
use moneta::rendering::AmountAnomaly;
use moneta::rendering::RenderedBalance;
use moneta::rendering::RenderedCategory;
use moneta::rendering::RenderedExpense;

fn account(id: i32, user_id: i32) -> Account {
    Account {
        id,
        user_id,
        name: format!("account {}", id),
        description: String::new(),
        color: None,
        iban: None,
        kind: AccountKind::Debit,
        availability: AccountAvailability::Immediately,
        risk: AccountRisk::NoRisk,
        hidden: false,
    }
}

fn expense(id: i32) -> Expense {
    Expense {
        id,
        title: format!("expense {}", id),
        description: String::new(),
        store: String::new(),
        comments: String::new(),
        booking_start: 1_600_000_000,
        booking_end: 1_600_086_400,
        is_deleted: false,
        is_template: false,
        is_preliminary: false,
        is_tax_relevant: false,
        is_unchecked: false,
    }
}

fn fixed_tx(id: i32, expense_id: i32, account_id: i32, amount: i64) -> ExpenseTransaction {
    ExpenseTransaction {
        id,
        expense_id,
        account_id,
        date: 1_600_000_000,
        amount: Some(amount),
        fraction: None,
        comments: String::new(),
        statement: String::new(),
    }
}

fn fraction_tx(id: i32, expense_id: i32, account_id: i32, num: i64, den: i64) -> ExpenseTransaction {
    ExpenseTransaction {
        id,
        expense_id,
        account_id,
        date: 1_600_000_000,
        amount: None,
        fraction: Some(Ratio { num, den }),
        comments: String::new(),
        statement: String::new(),
    }
}

#[test]
fn settle_share_truncates_toward_zero() {
    assert_eq!(settle_share(Ratio { num: 1, den: 3 }, 1000), 333);
    assert_eq!(settle_share(Ratio { num: -1, den: 3 }, 1000), -333);
    assert_eq!(settle_share(Ratio { num: 1, den: 3 }, -1000), -333);
    assert_eq!(settle_share(Ratio { num: -1, den: 2 }, 5), -2);
    assert_eq!(settle_share(Ratio { num: 1, den: 2 }, 5), 2);
    assert_eq!(settle_share(Ratio { num: -1, den: 1 }, 1000), -1000);
    assert_eq!(settle_share(Ratio { num: 0, den: 1 }, 1000), 0);
    assert_eq!(settle_share(Ratio { num: 1, den: 1 }, 0), 0);
}

#[test]
fn fraction_fixed_consistency() {
    // P3: a fixed amount of 1000 and a fraction of -1.0; the fraction
    // settles to -1000, and the total sums only viewer-attributable rows.
    let uid = 1;
    let rows = vec![
        (fixed_tx(1, 7, 10, 1000), account(10, 1), None),
        (fraction_tx(2, 7, 20, -1, 1), account(20, 2), None),
    ];
    let (total, amounts) = calculate_total_amount(uid, &expense(7), &rows);
    assert_eq!(amounts, vec![1000, -1000]);
    // the second account belongs to user 2 and carries no link: not counted
    assert_eq!(total, 1000);
}

#[test]
fn fraction_fixed_consistency_with_link() {
    // As above, but the fractional row carries a synchronization link, so it
    // is attributable to the viewer and the contributions cancel out.
    let uid = 1;
    let sync = AccountSynchronization { account1: 10, account2: 20, user1: 1, user2: 2, invert: false };
    let rows = vec![
        (fixed_tx(1, 7, 10, 1000), account(10, 1), None),
        (fraction_tx(2, 7, 20, -1, 1), account(20, 2), Some(sync)),
    ];
    let (total, amounts) = calculate_total_amount(uid, &expense(7), &rows);
    assert_eq!(amounts, vec![1000, -1000]);
    assert_eq!(total, 0);
}

#[test]
fn no_fixed_amount_degenerate() {
    // P4: all-fractional transactions settle to zero against a zero basis,
    // the total is zero and the anomaly is reported, without failing.
    let uid = 1;
    let rows = vec![
        (fraction_tx(1, 7, 10, 1, 2), account(10, 1), None),
        (fraction_tx(2, 7, 20, -1, 2), account(20, 1), None),
    ];
    assert_eq!(amount_anomaly(&rows), Some(AmountAnomaly::NoFixedAmount));
    let (total, amounts) = calculate_total_amount(uid, &expense(7), &rows);
    assert_eq!(total, 0);
    assert_eq!(amounts, vec![0, 0]);
}

#[test]
fn mixed_fixed_and_fractional_anomaly() {
    let rows = vec![
        (fixed_tx(1, 7, 10, 500), account(10, 1), None),
        (fixed_tx(2, 7, 20, 500), account(20, 1), None),
        (fraction_tx(3, 7, 30, -1, 1), account(30, 1), None),
    ];
    assert_eq!(amount_anomaly(&rows), Some(AmountAnomaly::MixedFixedAndFractional));
    // several fixed amounts without fractions are unremarkable
    let plain = vec![
        (fixed_tx(1, 7, 10, 500), account(10, 1), None),
        (fixed_tx(2, 7, 20, 500), account(20, 1), None),
    ];
    assert_eq!(amount_anomaly(&plain), None);
    // one fixed amount is the ordinary shape
    let single = vec![(fixed_tx(1, 7, 10, 500), account(10, 1), None)];
    assert_eq!(amount_anomaly(&single), None);
    // no transactions at all still count as missing the fixed amount
    assert_eq!(amount_anomaly(&[]), Some(AmountAnomaly::NoFixedAmount));
}

#[test]
fn render_applies_synchronization() {
    // An inverting link flips the signs of amount and fraction and redirects
    // the account to the other side of the pair.
    let uid = 1;
    let sync = AccountSynchronization { account1: 10, account2: 20, user1: 2, user2: 1, invert: true };
    let rows = vec![
        (fixed_tx(1, 7, 10, 1000), account(10, 2), Some(sync)),
        (fraction_tx(2, 7, 30, 1, 2), account(30, 1), None),
    ];
    let out = RenderedExpense::render(uid, expense(7), rows, vec![], vec![], vec![]);
    assert_eq!(out.transactions[0].account_id, 20);
    assert_eq!(out.transactions[0].amount, Some(-1000));
    assert_eq!(out.transactions[1].fraction, Some(Ratio { num: 1, den: 2 }));
    // basis is the inverted -1000; the half share settles to -500
    assert_eq!(out.calculated_amounts, vec![-1000, -500]);
    assert_eq!(out.total_amount, -1500);
}

#[test]
fn render_replaces_categories_single_hop() {
    // P5: with A -> B supplied for a category tagged A, and B -> C existing
    // for the same user, the category renders as B, never as C.
    let uid = 1;
    let a_to_b = CategoryReplacement { user_id: uid, original: 100, replacement: 200 };
    let b_to_c = CategoryReplacement { user_id: uid, original: 200, replacement: 300 };
    assert_eq!(moneta::resolve::resolve_category(100, &Some(a_to_b)), 200);
    assert_eq!(moneta::resolve::resolve_category(200, &Some(b_to_c)), 300);
    let cat_rows = vec![(
        ExpenseCategory { expense_id: 7, category_id: 100, weight: Ratio { num: 1, den: 1 } },
        Some(a_to_b),
    )];
    let out = RenderedExpense::render(uid, expense(7), vec![], cat_rows, vec![], vec![]);
    assert_eq!(out.categories.len(), 1);
    assert_eq!(out.categories[0].category_id, 200);
    assert_ne!(out.categories[0].category_id, 300);
}

#[test]
fn render_balance_redirects_and_inverts() {
    let balance = Balance {
        id: 1,
        account_id: 10,
        date: 1_600_000_000,
        amount: 2500,
        comment: String::from("statement"),
    };
    let sync = AccountSynchronization { account1: 10, account2: 20, user1: 2, user2: 1, invert: true };
    let out = RenderedBalance::render(balance, Some(sync));
    assert_eq!(out.account_id, 20);
    assert_eq!(out.amount, -2500);
    assert_eq!(out.comment, "statement");

    let plain = Balance {
        id: 2,
        account_id: 30,
        date: 1_600_000_000,
        amount: 400,
        comment: String::new(),
    };
    let out = RenderedBalance::render(plain, None);
    assert_eq!(out.account_id, 30);
    assert_eq!(out.amount, 400);
}

#[test]
fn rendered_category_collects_reverse_replacements() {
    let category = Category {
        id: 200,
        user_id: 1,
        name: String::from("groceries"),
        description: String::new(),
        color: None,
        parent: None,
    };
    let replacements = vec![
        CategoryReplacement { user_id: 1, original: 100, replacement: 200 },
        CategoryReplacement { user_id: 1, original: 150, replacement: 300 },
        CategoryReplacement { user_id: 1, original: 170, replacement: 200 },
    ];
    let out = RenderedCategory::render(category, &replacements);
    assert_eq!(out.info.id, 200);
    assert_eq!(out.replaces, vec![100, 170]);
}

#[test]
fn cursor_monotonicity() {
    // P6: expenses [5, 9, 12] against transactions owned by
    // [5, 5, 9, 12, 12, 12] collect exactly 2, 1 and 3 transactions.
    let uid = 1;
    let expenses = vec![expense(5), expense(9), expense(12)];
    let rows = vec![
        (fixed_tx(1, 5, 10, 100), account(10, 1), None),
        (fixed_tx(2, 5, 10, 200), account(10, 1), None),
        (fixed_tx(3, 9, 10, 300), account(10, 1), None),
        (fixed_tx(4, 12, 10, 400), account(10, 1), None),
        (fixed_tx(5, 12, 10, 500), account(10, 1), None),
        (fixed_tx(6, 12, 10, 600), account(10, 1), None),
    ];
    let out = RenderedExpense::render_all(uid, expenses, &rows, &[], &[], &[]);
    assert_eq!(out.len(), 3);
    assert_eq!(out[0].transactions.len(), 2);
    assert_eq!(out[1].transactions.len(), 1);
    assert_eq!(out[2].transactions.len(), 3);
    assert_eq!(out[0].total_amount, 300);
    assert_eq!(out[1].total_amount, 300);
    assert_eq!(out[2].total_amount, 1500);
}

#[test]
fn merge_join_equals_naive() {
    // P1 on concrete data: the cursor-based batch renderer must produce,
    // element for element, what the naive per-expense scan over the whole
    // unsliced collections produces.
    let uid = 1;
    let sync = AccountSynchronization { account1: 20, account2: 25, user1: 2, user2: 1, invert: true };
    let expenses = vec![expense(5), expense(9), expense(12)];
    let tx_rows = vec![
        (fixed_tx(1, 5, 10, 1000), account(10, 1), None),
        (fraction_tx(2, 5, 20, -1, 1), account(20, 2), Some(sync)),
        (fixed_tx(3, 9, 10, 300), account(10, 1), None),
        (fixed_tx(4, 12, 30, 400), account(30, 2), None),
        (fraction_tx(5, 12, 10, 1, 4), account(10, 1), None),
    ];
    let cat_rows = vec![
        (
            ExpenseCategory { expense_id: 5, category_id: 100, weight: Ratio { num: 1, den: 1 } },
            Some(CategoryReplacement { user_id: 1, original: 100, replacement: 200 }),
        ),
        (
            ExpenseCategory { expense_id: 12, category_id: 150, weight: Ratio { num: 2, den: 1 } },
            None,
        ),
    ];
    let receipts = vec![
        ExpenseReceipt { id: 1, expense_id: 9, file_name: String::from("a.pdf") },
        ExpenseReceipt { id: 2, expense_id: 12, file_name: String::from("b.pdf") },
    ];
    let batch: Vec<Expense> = expenses.iter().map(|e| e.clone()).collect();
    let optimized = RenderedExpense::render_all(uid, batch, &tx_rows, &cat_rows, &receipts, &[]);
    let one_by_one: Vec<RenderedExpense> = expenses
        .iter()
        .map(|e| {
            RenderedExpense::filter_and_render(uid, e.clone(), &tx_rows, &cat_rows, &receipts, &[])
        })
        .collect();
    assert_eq!(optimized, one_by_one);
    let naive = RenderedExpense::render_all_naive(uid, expenses, &tx_rows, &cat_rows, &receipts, &[]);
    assert_eq!(optimized, naive);
}

#[test]
fn render_all_skips_unmatched_children() {
    // Child rows owned by expenses outside the batch window (here 3 and 8)
    // are passed over by the cursors and never attached to anything.
    let uid = 1;
    let expenses = vec![expense(5), expense(12)];
    let rows = vec![
        (fixed_tx(1, 3, 10, 100), account(10, 1), None),
        (fixed_tx(2, 5, 10, 200), account(10, 1), None),
        (fixed_tx(3, 8, 10, 300), account(10, 1), None),
        (fixed_tx(4, 12, 10, 400), account(10, 1), None),
    ];
    let out = RenderedExpense::render_all(uid, expenses, &rows, &[], &[], &[]);
    assert_eq!(out.len(), 2);
    assert_eq!(out[0].transactions.len(), 1);
    assert_eq!(out[0].total_amount, 200);
    assert_eq!(out[1].transactions.len(), 1);
    assert_eq!(out[1].total_amount, 400);
}

#[test]
fn render_all_on_empty_batch() {
    let out = RenderedExpense::render_all(1, vec![], &[], &[], &[], &[]);
    assert!(out.is_empty());
}

#[test]
fn render_all_expense_without_children() {
    let out = RenderedExpense::render_all(1, vec![expense(3)], &[], &[], &[], &[]);
    assert_eq!(out.len(), 1);
    assert_eq!(out[0].total_amount, 0);
    assert!(out[0].transactions.is_empty());
    assert!(out[0].categories.is_empty());
}
