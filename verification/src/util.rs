//! Shapes of the paging requests and responses that the transport
//! collaborator exchanges with the engine.

use vstd::prelude::*;

verus! {

/// One requested ordering: a column name and a direction
/// (`ascending` or `descending`).
#[derive(Debug, PartialEq, Eq)]
pub struct SortBy {
    pub direction: String,
    pub column: String,
}

/// One page of rendered records, with the count of records matching the
/// filters and, when no filter narrowed the result, the overall count.
#[derive(Debug, PartialEq, Eq)]
pub struct QueryResponse<T> {
    pub records: Vec<T>,
    pub filtered_record_count: i64,
    pub total_record_count: Option<i64>,
}

/// Summary data about a collection: its record count and, per column, a few
/// values worth offering as filters.
#[derive(Debug, PartialEq, Eq)]
pub struct InfoResponse {
    pub total_record_count: i64,
    pub filter_hints: Vec<(String, Vec<String>)>,
}

} // verus!
