use moneta::models::NewExpenseReceipt;
use moneta::models::NewUser;
use moneta::models::User;
use moneta::rendering::RenderedBalance;
use moneta::util::InfoResponse;
use moneta::util::QueryResponse;
use moneta::util::SortBy;

#[test]
fn query_response_carries_records_and_counts() {
    let response = QueryResponse {
        records: vec![
            RenderedBalance {
                id: 1,
                account_id: 10,
                date: 1_700_000_000,
                amount: 42,
                comment: String::new(),
            },
        ],
        filtered_record_count: 1,
        total_record_count: Some(1),
    };
    assert_eq!(response.records.len(), 1);
    assert_eq!(response.records[0].amount, 42);
    assert_eq!(response.filtered_record_count, 1);
    assert_eq!(response.total_record_count, Some(1));
}

#[test]
fn info_response_carries_filter_hints() {
    let info = InfoResponse {
        total_record_count: 7,
        filter_hints: vec![(String::from("store"), vec![String::from("corner store")])],
    };
    assert_eq!(info.total_record_count, 7);
    assert_eq!(info.filter_hints[0].0, "store");
    assert_eq!(info.filter_hints[0].1, vec![String::from("corner store")]);
}

#[test]
fn sort_by_holds_direction_and_column() {
    let sort = SortBy {
        direction: String::from("ascending"),
        column: String::from("info.title"),
    };
    assert_eq!(sort.direction, "ascending");
    assert_eq!(sort.column, "info.title");
}

#[test]
fn user_records_hold_their_fields() {
    let user = User {
        id: 1,
        name: String::from("ada"),
        full_name: String::from("Ada L."),
        hash: String::from("argon-digest"),
    };
    let new_user = NewUser {
        name: user.name.clone(),
        full_name: user.full_name.clone(),
        hash: user.hash.clone(),
    };
    assert_eq!(user.name, new_user.name);
    let receipt = NewExpenseReceipt { expense_id: 3, file_name: String::from("scan.pdf") };
    assert_eq!(receipt.expense_id, 3);
}
