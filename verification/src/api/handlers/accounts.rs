//! Paging through lists.
use vstd::prelude::*;

verus! {

/// The page asked for: at most `limit` items after the first `offset`.
#[derive(Debug)]
pub struct PaginationParams {
    pub limit: i64,
    pub offset: i64,
}

/// The page size when none is asked for: 20.
pub fn default_limit() -> (limit: i64)
    ensures
        limit == 20,
{
    20
}

/// The page size used: the one asked for, brought into 1..=100.
pub open spec fn bounded_limit(limit: i64) -> i64 {
    if limit > 100 {
        100
    } else if limit < 1 {
        1
    } else {
        limit
    }
}

/// The offset used: the one asked for, or 0 if it is negative.
pub open spec fn bounded_offset(offset: i64) -> i64 {
    if offset < 0 {
        0
    } else {
        offset
    }
}

impl PaginationParams {
    /// The page actually served: the size brought into 1..=100 and a
    /// negative offset taken as 0.
    pub fn bounded(&self) -> (page: (i64, i64))
        ensures
            page == (bounded_limit(self.limit), bounded_offset(self.offset)),
    {
        let limit = if self.limit > 100 {
            100
        } else if self.limit < 1 {
            1
        } else {
            self.limit
        };
        let offset = if self.offset < 0 {
            0
        } else {
            self.offset
        };
        (limit, offset)
    }
}

/// Pages are bounded: the size served is between 1 and 100, the offset is
/// not negative, a request already within bounds is served as asked, and
/// bounding twice changes nothing.
pub proof fn law_pagination_bounds(limit: i64, offset: i64)
    ensures
        1 <= bounded_limit(limit) <= 100,
        bounded_offset(offset) >= 0,
        1 <= limit <= 100 ==> bounded_limit(limit) == limit,
        offset >= 0 ==> bounded_offset(offset) == offset,
        bounded_limit(bounded_limit(limit)) == bounded_limit(limit),
        bounded_offset(bounded_offset(offset)) == bounded_offset(offset),
{
}

/// A page of a list, with the total count and the page asked for.
#[derive(Debug)]
pub struct ListResponse<T> {
    pub data: Vec<T>,
    pub total: i64,
    pub limit: i64,
    pub offset: i64,
}

} // verus!
