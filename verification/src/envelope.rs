//! The response envelope used by the route layer: the success wrapper with
//! optional message and pagination block, and the pagination arithmetic.
use vstd::prelude::*;

verus! {

/// Pagination block of a list response.
#[derive(Debug)]
pub struct PaginationInfo {
    pub page: u32,
    pub page_size: u32,
    pub total_count: u64,
    pub total_pages: u64,
}

impl Clone for PaginationInfo {
    fn clone(&self) -> (r: Self)
        ensures
            r == *self,
    {
        PaginationInfo {
            page: self.page,
            page_size: self.page_size,
            total_count: self.total_count,
            total_pages: self.total_pages,
        }
    }
}

/// The number of pages owed to a total and a page size: the total divided by
/// the size, rounded up.
pub open spec fn spec_total_pages(total_count: int, page_size: int) -> int {
    (total_count + page_size - 1) / page_size
}

/// Compute the page count.
pub fn total_pages(total_count: u64, page_size: u32) -> (r: u64)
    requires
        1 <= page_size,
    ensures
        r == spec_total_pages(total_count as int, page_size as int),
{
    let p = page_size as u64;
    let q = total_count / p;
    if total_count % p == 0 {
        proof {
            assert((total_count + p - 1) / (p as int) == q) by (nonlinear_arith)
                requires
                    p >= 1,
                    q == total_count as int / p as int,
                    total_count as int % p as int == 0,
                    total_count >= 0,
            ;
        }
        q
    } else {
        proof {
            assert((total_count + p - 1) / (p as int) == q + 1) by (nonlinear_arith)
                requires
                    p >= 1,
                    q == total_count as int / p as int,
                    total_count as int % p as int != 0,
                    total_count >= 0,
            ;
            assert(q + 1 <= total_count) by (nonlinear_arith)
                requires
                    p >= 1,
                    q == total_count as int / p as int,
                    total_count as int % p as int != 0,
                    total_count >= 0,
            ;
        }
        q + 1
    }
}

/// The offset owed to a one-based page number: pages below one count as the
/// first.
pub open spec fn spec_offset(page: int, page_size: int) -> int {
    if page <= 1 {
        0
    } else {
        (page - 1) * page_size
    }
}

/// Compute the offset of a one-based page.
pub fn page_offset(page: u32, page_size: u32) -> (r: u64)
    ensures
        r == spec_offset(page as int, page_size as int),
{
    if page <= 1 {
        0
    } else {
        proof {
            assert((page - 1) * page_size as int <= 0xffff_ffffi64 * 0xffff_ffffi64)
                by (nonlinear_arith)
                requires
                    1 < page <= 0xffff_ffffu64,
                    0 <= page_size <= 0xffff_ffffu64,
            ;
        }
        (page as u64 - 1) * (page_size as u64)
    }
}

/// The window a limit and an offset cut out of a listing.
pub open spec fn page_slice<T>(listing: Seq<T>, offset: int, limit: int) -> Seq<T> {
    let start = if offset > listing.len() {
        listing.len() as int
    } else {
        offset
    };
    let end = if offset + limit > listing.len() {
        listing.len() as int
    } else {
        offset + limit
    };
    if end < start {
        Seq::empty()
    } else {
        listing.subrange(start, end)
    }
}

/// Response wrapper for the route layer, carrying the payload with an
/// optional message and an optional pagination block.
pub struct ApiResponse<T> {
    pub success: bool,
    pub data: Option<T>,
    pub message: Option<String>,
    pub pagination: Option<PaginationInfo>,
}

impl<T> ApiResponse<T> {
    /// A bare successful response.
    pub fn success(data: T) -> (r: Self)
        ensures
            r.success == true,
            r.data matches Some(d) && d == data,
            r.message is None,
            r.pagination is None,
    {
        Self { success: true, data: Some(data), message: None, pagination: None }
    }

    /// A successful response with a message.
    pub fn success_with_message(data: T, message: String) -> (r: Self)
        ensures
            r.success == true,
            r.data matches Some(d) && d == data,
            r.message matches Some(m) && m == message,
            r.pagination is None,
    {
        Self { success: true, data: Some(data), message: Some(message), pagination: None }
    }

    /// A successful response with a pagination block.
    pub fn success_with_pagination(data: T, pagination: PaginationInfo) -> (r: Self)
        ensures
            r.success == true,
            r.data matches Some(d) && d == data,
            r.message is None,
            r.pagination matches Some(p) && p == pagination,
    {
        Self { success: true, data: Some(data), message: None, pagination: Some(pagination) }
    }
}

} // verus!
