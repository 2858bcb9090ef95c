use vstd::prelude::*;

verus! {

/// Largest page size a listing accepts before falling back to the default.
pub const MAX_PAGE_SIZE: i32 = 100;

/// Page size used when the requested one is out of range.
pub const DEFAULT_PAGE_SIZE: i32 = 10;

/// The page a listing serves for a requested page number.
pub open spec fn effective_page(page: i32) -> int {
    if page <= 0 { 1 } else { page as int }
}

/// The page size a listing serves for a requested page size.
pub open spec fn effective_page_size(page_size: i32) -> int {
    if page_size <= 0 || page_size > MAX_PAGE_SIZE { DEFAULT_PAGE_SIZE as int } else { page_size as int }
}

/// A normalised request for one page of a listing.
#[derive(Clone, Copy, Debug, PartialEq, Eq)]
pub struct PageRequest {
    pub page: i32,
    pub page_size: i32,
}

impl PageRequest {
    /// Normalises a requested page and page size: a page of zero or less is the
    /// first page; a page size of zero or less, or above the maximum, is the default.
    pub fn normalize(page: i32, page_size: i32) -> (r: PageRequest)
        ensures
            r.page as int == effective_page(page),
            r.page_size as int == effective_page_size(page_size),
            r.page >= 1,
            1 <= r.page_size <= MAX_PAGE_SIZE,
    {
        let p: i32 = if page <= 0 { 1 } else { page };
        let s: i32 = if page_size <= 0 || page_size > MAX_PAGE_SIZE { DEFAULT_PAGE_SIZE } else { page_size };
        PageRequest { page: p, page_size: s }
    }

    /// Number of rows skipped before this page.
    pub fn offset(&self) -> (r: u64)
        requires
            self.page >= 1,
            self.page_size >= 1,
        ensures
            r as int == (self.page as int - 1) * self.page_size as int,
    {
        let a: u64 = (self.page - 1) as u64;
        let b: u64 = self.page_size as u64;
        assert((self.page as int - 1) * (self.page_size as int) <= 0x7fff_ffff * 0x7fff_ffff) by (nonlinear_arith)
            requires 0 <= self.page as int - 1 < 0x7fff_ffff, 0 < self.page_size as int <= 0x7fff_ffff;
        a * b
    }
}

} // verus!
