use moneta::models::AccountSynchronization;
use moneta::models::CategoryReplacement;
use moneta::resolve::resolve_account;
use moneta::resolve::resolve_category;

#[test]
fn resolve_account_without_link() {
    assert_eq!(resolve_account(42, &None), (42, 1));
}

#[test]
fn sync_symmetry_without_inversion() {
    // P2: with invert false, a record on either side lands on the other
    // side with sign +1.
    let sync = AccountSynchronization { account1: 3, account2: 8, user1: 1, user2: 2, invert: false };
    assert_eq!(resolve_account(3, &Some(sync)), (8, 1));
    assert_eq!(resolve_account(8, &Some(sync)), (3, 1));
}

#[test]
fn sync_symmetry_with_inversion() {
    // P2: with invert true, the sign is -1 in both directions.
    let sync = AccountSynchronization { account1: 3, account2: 8, user1: 1, user2: 2, invert: true };
    assert_eq!(resolve_account(3, &Some(sync)), (8, -1));
    assert_eq!(resolve_account(8, &Some(sync)), (3, -1));
}

#[test]
fn resolve_category_without_replacement() {
    assert_eq!(resolve_category(7, &None), 7);
}

#[test]
fn resolve_category_applies_matching_replacement() {
    let repl = CategoryReplacement { user_id: 1, original: 7, replacement: 9 };
    assert_eq!(resolve_category(7, &Some(repl)), 9);
}

#[test]
fn resolve_category_ignores_unrelated_replacement() {
    let repl = CategoryReplacement { user_id: 1, original: 5, replacement: 9 };
    assert_eq!(resolve_category(7, &Some(repl)), 7);
}

#[test]
fn replacement_is_single_hop() {
    // P5: A -> B and B -> C never compose; a category tagged A renders as B.
    let a_to_b = CategoryReplacement { user_id: 1, original: 1, replacement: 2 };
    let b_to_c = CategoryReplacement { user_id: 1, original: 2, replacement: 3 };
    let first = resolve_category(1, &Some(a_to_b));
    assert_eq!(first, 2);
    assert_ne!(first, b_to_c.replacement);
}
