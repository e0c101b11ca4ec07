//! The paging of query results.
use vstd::prelude::*;

verus! {

/// The page size used where the caller gives none.
pub const DEFAULT_PAGE_SIZE: u32 = 25;

/// One page of a result: its number, its size, and how many documents come
/// before it.
pub struct PageWindow {
    pub page: u32,
    pub page_size: u32,
    pub skip: u64,
}

/// The page to fetch: page 0 and pages of 25 documents unless the caller says
/// otherwise.
pub fn page_window(page: Option<u32>, page_size: Option<u32>) -> (r: PageWindow)
    ensures
        r.page == match page {
            Some(p) => p,
            None => 0u32,
        },
        r.page_size == match page_size {
            Some(s) => s,
            None => DEFAULT_PAGE_SIZE,
        },
        r.skip == r.page as int * r.page_size as int,
{
    let page = match page {
        Some(p) => p,
        None => 0,
    };
    let page_size = match page_size {
        Some(s) => s,
        None => DEFAULT_PAGE_SIZE,
    };
    assert(page as int * page_size as int <= u32::MAX as int * u32::MAX as int) by (nonlinear_arith);
    let skip = page as u64 * page_size as u64;
    PageWindow { page, page_size, skip }
}

/// The number of pages that `total_count` documents fill, the last one
/// possibly partial. With a page size of 0 there is no page where there is no
/// document, and the largest count otherwise.
pub fn total_pages(total_count: u64, page_size: u32) -> (r: u64)
    ensures
        page_size > 0 ==> r == total_count / (page_size as u64) + if total_count % (page_size as u64) == 0 {
            0int
        } else {
            1int
        },
        page_size == 0 ==> r == if total_count == 0 {
            0
        } else {
            u64::MAX
        },
{
    if page_size == 0 {
        if total_count == 0 {
            0
        } else {
            u64::MAX
        }
    } else {
        let size = page_size as u64;
        let whole = total_count / size;
        if total_count % size == 0 {
            whole
        } else {
            assert(whole < u64::MAX) by (nonlinear_arith)
                requires
                    whole == total_count / size,
                    size >= 1,
                    total_count % size != 0,
            ;
            whole + 1
        }
    }
}

} // verus!
