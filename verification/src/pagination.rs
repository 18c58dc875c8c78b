use vstd::prelude::*;
use crate::div_ceil_u64;
use crate::spec_div_ceil;
use crate::error::APIError;
use vstd::string::StringExecFns;

verus! {

/// The paging knobs of a listing call.
#[derive(Debug, Clone, Copy, PartialEq, Eq, Structural)]
pub struct PaginationOptions {
    /// The page to fetch, zero-based.
    pub page: u64,
    /// The number of items per page.
    pub per_page: u64,
    /// Whether to also run the full count.
    pub count: bool,
}

impl PaginationOptions {
    /// Whether the options are acceptable: a page must hold at least
    /// one item and at most `max_pagination_size`.
    pub fn is_valid(&self, max_pagination_size: u64) -> (r: bool)
        ensures
            r == (0 < self.per_page <= max_pagination_size),
    {
        self.per_page > 0 && self.per_page <= max_pagination_size
    }

    /// Reject unacceptable paging knobs before they reach the store.
    pub fn validate(&self, max_pagination_size: u64) -> (r: Result<(), APIError>)
        ensures
            r is Ok <==> 0 < self.per_page <= max_pagination_size,
            r matches Err(e) ==> e matches APIError::InvalidPageSize(_),
    {
        if self.is_valid(max_pagination_size) {
            Ok(())
        } else {
            Err(APIError::InvalidPageSize(String::from_str("pagination parameters are invalid")))
        }
    }
}

/// The slice of `items` that page `page` of size `per_page` holds.
pub open spec fn spec_page<T>(items: Seq<T>, page: int, per_page: int) -> Seq<T> {
    let len = items.len() as int;
    let start = if page * per_page < len {
        page * per_page
    } else {
        len
    };
    let end = if start + per_page < len {
        start + per_page
    } else {
        len
    };
    items.subrange(start, end)
}

/// The first `k` pages of `items`, in order.
pub open spec fn spec_concat_pages<T>(items: Seq<T>, per_page: int, k: int) -> Seq<T>
    decreases k,
{
    if k <= 0 {
        Seq::empty()
    } else {
        spec_concat_pages(items, per_page, k - 1) + spec_page(items, k - 1, per_page)
    }
}

/// The first `k` pages are exactly the first `min(k * per_page, len)`
/// items: pages neither skip nor repeat anything.
pub proof fn lemma_concat_pages_prefix<T>(items: Seq<T>, per_page: int, k: int)
    requires
        per_page >= 1,
        k >= 0,
    ensures
        spec_concat_pages(items, per_page, k) == items.subrange(
            0,
            if k * per_page < items.len() as int {
                k * per_page
            } else {
                items.len() as int
            },
        ),
    decreases k,
{
    let len = items.len() as int;
    if k == 0 {
        assert(k * per_page == 0) by (nonlinear_arith)
            requires
                k == 0,
        ;
        assert(spec_concat_pages(items, per_page, 0) =~= items.subrange(0, 0));
    } else {
        lemma_concat_pages_prefix(items, per_page, k - 1);
        assert((k - 1) * per_page == k * per_page - per_page) by (nonlinear_arith);
        assert(k * per_page >= per_page && (k - 1) * per_page >= 0) by (nonlinear_arith)
            requires
                k >= 1 && per_page >= 1,
        ;
        let a = if (k - 1) * per_page < len {
            (k - 1) * per_page
        } else {
            len
        };
        let b = if k * per_page < len {
            k * per_page
        } else {
            len
        };
        assert(spec_page(items, k - 1, per_page) =~= items.subrange(a, b));
        assert(items.subrange(0, a) + items.subrange(a, b) =~= items.subrange(0, b));
        assert(spec_concat_pages(items, per_page, k) == spec_concat_pages(items, per_page, k - 1)
            + spec_page(items, k - 1, per_page));
        assert(spec_concat_pages(items, per_page, k - 1) == items.subrange(0, a));
        assert(spec_concat_pages(items, per_page, k) == items.subrange(0, b));
        assert(b == (if k * per_page < items.len() as int {
            k * per_page
        } else {
            items.len() as int
        }));
    }
}

/// Paging reproduces the whole list: enough pages of any one size,
/// concatenated in order, give back the full result with no gaps and
/// no duplicates.
pub proof fn lemma_pages_cover<T>(items: Seq<T>, per_page: int, k: int)
    requires
        per_page >= 1,
        k * per_page >= items.len(),
        k >= 0,
    ensures
        spec_concat_pages(items, per_page, k) == items,
{
    lemma_concat_pages_prefix(items, per_page, k);
    assert(items.subrange(0, items.len() as int) =~= items);
}

/// Extract one page from an owned list.
pub fn page_of<T>(items: Vec<T>, page: u64, per_page: u64) -> (r: Vec<T>)
    requires
        per_page >= 1,
    ensures
        r@ == spec_page(items@, page as int, per_page as int),
{
    let ghost orig = items@;
    let mut items = items;
    let len: usize = items.len();
    let start_u64: u64 = if page > (len as u64) / per_page {
        len as u64
    } else {
        proof {
            assert(page * per_page <= ((len as u64) / per_page) * per_page <= len)
                by (nonlinear_arith)
                requires
                    per_page >= 1 && page <= (len as u64) / per_page,
            ;
        }
        page * per_page
    };
    proof {
        assert(page > (len as u64) / per_page ==> page * per_page >= len) by (nonlinear_arith)
            requires
                per_page >= 1,
        ;
    }
    let start: usize = start_u64 as usize;
    let mut tail = items.split_off(start);
    if (tail.len() as u64) > per_page {
        tail.truncate(per_page as usize);
    }
    assert(tail@ =~= spec_page(orig, page as int, per_page as int));
    tail
}

/// The page count and item count of a listing: the item count is the
/// full length, and the page count is the number of pages of size
/// `per_page` needed to hold it.
pub fn num_items_and_pages(num_items: u64, per_page: u64) -> (r: (u64, u64))
    requires
        per_page >= 1,
    ensures
        r.0 == spec_div_ceil(num_items as nat, per_page as nat),
        r.1 == num_items,
        r.0 * per_page >= num_items,
{
    (div_ceil_u64(num_items, per_page), num_items)
}

/// A page of results together with the page and item counts, as every
/// listing endpoint reports them.
#[derive(Debug, PartialEq, Eq)]
pub struct PaginatedResponse<T> {
    pub items: Vec<T>,
    pub num_pages: u64,
    pub num_items: u64,
}

impl<T> PaginatedResponse<T> {
    /// Pack a fetched page and its counts for the HTTP layer.
    pub fn from_parts(data: (Vec<T>, u64, u64)) -> (r: PaginatedResponse<T>)
        ensures
            r.items@ == data.0@,
            r.num_pages == data.1,
            r.num_items == data.2,
    {
        let (items, num_pages, num_items) = data;
        PaginatedResponse { items, num_pages, num_items }
    }
}

/// Serve one page from the full filtered result, mirroring the shared
/// listing path: the page itself always, the counts only when the
/// caller asked for them (the count is the cost of a second query).
pub fn get_all<T>(items: Vec<T>, options: &PaginationOptions) -> (r: (Vec<T>, u64, u64))
    requires
        options.per_page >= 1,
    ensures
        r.0@ == spec_page(items@, options.page as int, options.per_page as int),
        options.count ==> r.1 == spec_div_ceil(items@.len(), options.per_page as nat) && r.2
            == items@.len(),
        !options.count ==> r.1 == 0 && r.2 == 0,
{
    let total: u64 = items.len() as u64;
    let page = page_of(items, options.page, options.per_page);
    if options.count {
        let (num_pages, num_items) = num_items_and_pages(total, options.per_page);
        (page, num_pages, num_items)
    } else {
        (page, 0, 0)
    }
}

} // verus!
