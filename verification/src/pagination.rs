//! Query options for paged listings: sort direction and column, page
//! limit and offset, and an optional text filter.

use vstd::prelude::*;

verus! {

/// Sorting direction for query results.
#[derive(Clone, Copy, PartialEq, Eq, Structural, Debug)]
pub enum SortDirection {
    Asc,
    Desc,
}

impl Default for SortDirection {
    /// Listings sort newest first by default.
    fn default() -> (r: Self)
        ensures
            r == SortDirection::Desc,
    {
        SortDirection::Desc
    }
}

/// Sorting options for ramp queries.
#[derive(Debug)]
pub struct SortOptions {
    pub column: Option<String>,
    pub direction: Option<SortDirection>,
}

impl Default for SortOptions {
    fn default() -> (r: Self)
        ensures
            r.column is None,
            r.direction is None,
    {
        SortOptions { column: None, direction: None }
    }
}

/// One page of a listing query.
#[derive(Debug)]
pub struct Pagination {
    pub limit: u32,
    pub offset: u32,
    pub query: Option<String>,
    pub sort: Option<SortOptions>,
}

} // verus!
