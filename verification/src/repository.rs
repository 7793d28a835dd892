use vstd::prelude::*;

use crate::cursor::{encode_cursor, spec_encode_cursor};
use crate::error::Error;
use crate::model::{PageInfo, User};
use crate::store::{
    bumped, end_bound, start_bound, window_backward, window_forward, MemoryStore,
};

verus! {

/// Page size used when the arguments name no usable paging shape.
pub const DEFAULT_PAGE_SIZE: usize = 10;

/// Reads pages of records out of an identifier-ordered store.
#[derive(Debug)]
pub struct Repository {}

impl Clone for Repository {
    fn clone(&self) -> (r: Self)
        ensures
            r == *self,
    {
        Repository {}
    }
}

impl Repository {
    pub fn new() -> (r: Repository)
        ensures
            r == (Repository {  }),
    {
        Repository {}
    }
}

impl Default for Repository {
    fn default() -> (r: Self)
        ensures
            r == (Repository {  }),
    {
        Repository::new()
    }
}

/// A validated paging request as the repository sees it: direction, page
/// size, decoded boundary cursors, and which optional metadata fields the
/// caller actually asked for.
#[derive(Debug)]
pub struct Pagination {
    pub first: Option<i32>,
    pub after: Option<u128>,
    pub last: Option<i32>,
    pub before: Option<u128>,
    pub is_total_count: bool,
    pub is_has_next_page: bool,
    pub is_has_previous_page: bool,
}

/// The short-lived result of the fetch step: the final rows of the page, in
/// ascending identifier order, and whether one extra row beyond the
/// requested size was retrieved — the over-fetch that proves a previous
/// page exists. The extra row itself is never part of `rows`.
#[derive(Debug)]
pub struct Page {
    pub rows: Vec<User>,
    pub over_fetched: bool,
}

/// A page at the repository level: plain records rather than edges.
#[derive(Debug)]
pub struct UserConnection {
    pub edges: Vec<User>,
    pub page_info: PageInfo,
    pub total_count: Option<i64>,
}

/// Forward paging: a `first` size, optionally an `after` boundary, and no
/// backward arguments.
pub open spec fn forward_shape(
    first: Option<i32>,
    after: Option<u128>,
    last: Option<i32>,
    before: Option<u128>,
) -> bool {
    first is Some && last is None && before is None
}

/// Backward paging: a `last` size, optionally a `before` boundary, and no
/// forward arguments.
pub open spec fn backward_shape(
    first: Option<i32>,
    after: Option<u128>,
    last: Option<i32>,
    before: Option<u128>,
) -> bool {
    first is None && after is None && last is Some
}

/// Page sizes must be nonnegative; a negative size is rejected rather than
/// wrapped into a huge window.
pub open spec fn sizes_ok(first: Option<i32>, last: Option<i32>) -> bool {
    &&& (first matches Some(f) ==> f >= 0)
    &&& (last matches Some(l) ==> l >= 0)
}

/// The rows the ordered, bounded read returns, before any sentinel is
/// stripped. Backward shapes deliberately read one row more than the
/// requested size.
pub open spec fn spec_raw_rows(
    s: Seq<User>,
    first: Option<i32>,
    after: Option<u128>,
    last: Option<i32>,
    before: Option<u128>,
) -> Seq<User> {
    if forward_shape(first, after, last, before) {
        window_forward(s, after, first->Some_0 as int)
    } else if backward_shape(first, after, last, before) {
        window_backward(s, before, last->Some_0 + 1)
    } else {
        window_forward(s, Option::None, DEFAULT_PAGE_SIZE as int)
    }
}

/// Whether a backward read came back with more rows than the requested
/// `last` size: the earliest row is then a sentinel proving a previous
/// page. Only backward shapes over-fetch; every other read returns real
/// rows only.
pub open spec fn spec_over_fetched(
    s: Seq<User>,
    first: Option<i32>,
    after: Option<u128>,
    last: Option<i32>,
    before: Option<u128>,
) -> bool {
    backward_shape(first, after, last, before) && spec_raw_rows(
        s,
        first,
        after,
        last,
        before,
    ).len() > last->Some_0
}

/// The rows of the final page: the raw read with the sentinel stripped.
pub open spec fn spec_rows(
    s: Seq<User>,
    first: Option<i32>,
    after: Option<u128>,
    last: Option<i32>,
    before: Option<u128>,
) -> Seq<User> {
    let raw = spec_raw_rows(s, first, after, last, before);
    if spec_over_fetched(s, first, after, last, before) {
        raw.subrange(1, raw.len() as int)
    } else {
        raw
    }
}

/// Whether a window of one more than `first` past the `after` boundary
/// holds more rows than `first` — the existence query behind
/// `hasNextPage` for forward paging. Backward paging leaves it false.
pub open spec fn spec_has_next(
    s: Seq<User>,
    first: Option<i32>,
    after: Option<u128>,
    last: Option<i32>,
    before: Option<u128>,
) -> bool {
    forward_shape(first, after, last, before) && s.len() - start_bound(s, after)
        > first->Some_0 as int
}

/// The rows of a page are a contiguous slice of the identifier-ordered
/// store, so every page is strictly ascending by identifier; forward pages
/// hold at most `first` rows and backward pages at most `last`; and for
/// backward paging the over-fetch fires exactly when strictly more than
/// `last` rows exist before the boundary (or before the end, with no
/// boundary).
pub proof fn lemma_page_rows(
    s: Seq<User>,
    first: Option<i32>,
    after: Option<u128>,
    last: Option<i32>,
    before: Option<u128>,
)
    requires
        crate::store::ids_strictly_ascending(s),
        sizes_ok(first, last),
    ensures
        crate::store::ids_strictly_ascending(spec_rows(s, first, after, last, before)),
        forward_shape(first, after, last, before) ==> spec_rows(
            s,
            first,
            after,
            last,
            before,
        ).len() <= first->Some_0,
        backward_shape(first, after, last, before) ==> spec_rows(
            s,
            first,
            after,
            last,
            before,
        ).len() <= last->Some_0,
        backward_shape(first, after, last, before) ==> (spec_over_fetched(
            s,
            first,
            after,
            last,
            before,
        ) <==> end_bound(s, before) > last->Some_0),
{
    let raw = spec_raw_rows(s, first, after, last, before);
    let rows = spec_rows(s, first, after, last, before);
    if forward_shape(first, after, last, before) {
        let st = start_bound(s, after);
        if after is Some {
            crate::store::lemma_count_le_sorted(s, after->Some_0);
        }
        assert(0 <= st <= s.len());
    } else if backward_shape(first, after, last, before) {
        let en = end_bound(s, before);
        if before is Some {
            crate::store::lemma_count_lt_sorted(s, before->Some_0);
        }
        assert(0 <= en <= s.len());
    }
    assert forall|i: int, j: int|
        0 <= i < j < rows.len() implies #[trigger] rows[i].id < #[trigger] rows[j].id by {
        if spec_over_fetched(s, first, after, last, before) {
            assert(rows[i] == raw[i + 1]);
            assert(rows[j] == raw[j + 1]);
        }
    }
}

/// Strip the sentinel row when one was over-fetched: an explicit trimming
/// step returning the page without its earliest row. Without an over-fetch
/// the rows pass through unchanged.
pub fn trim_sentinel(rows: Vec<User>, over_fetched: bool) -> (out: Vec<User>)
    requires
        over_fetched ==> rows@.len() >= 1,
    ensures
        over_fetched ==> out@ == rows@.subrange(1, rows@.len() as int),
        !over_fetched ==> out@ == rows@,
{
    if over_fetched {
        let mut out = rows;
        let ghost prev = out@;
        out.remove(0);
        proof {
            assert(out@ =~= prev.subrange(1, prev.len() as int));
        }
        out
    } else {
        rows
    }
}

/// The boundary and window size of the `hasNextPage` existence query, when
/// one must run: only when the caller asked for the field and the paging
/// shape is forward. The window is one row longer than the page size, so
/// that a full window proves a following page.
pub fn existence_window(pagination: &Pagination) -> (r: Result<
    Option<(Option<u128>, usize)>,
    Error,
>)
    ensures
        r is Err <==> (pagination.is_has_next_page && forward_shape(
            pagination.first,
            pagination.after,
            pagination.last,
            pagination.before,
        ) && pagination.first->Some_0 < 0),
        r is Err ==> r == Err::<Option<(Option<u128>, usize)>, Error>(Error::NumericOverflow),
        r matches Ok(w) ==> {
            &&& w is Some <==> (pagination.is_has_next_page && forward_shape(
                pagination.first,
                pagination.after,
                pagination.last,
                pagination.before,
            ))
            &&& w matches Some(p) ==> p.0 == pagination.after && p.1 as int
                == pagination.first->Some_0 + 1
        },
{
    if pagination.is_has_next_page && pagination.first.is_some() && pagination.last.is_none()
        && pagination.before.is_none() {
        let f = match pagination.first {
            Some(f) => f,
            None => 0,
        };
        if f < 0 {
            return Err(Error::NumericOverflow);
        }
        Ok(Some((pagination.after, f as usize + 1)))
    } else {
        Ok(None)
    }
}

/// Assemble the pagination metadata for a fetched page from the request's
/// flags and the result of the existence query, where one ran.
///
/// `hasNextPage` is the existence answer on a forward shape, the known
/// `false` on a backward shape, and absent when unrequested.
/// `hasPreviousPage` comes free from the over-fetch. The boundary cursors
/// are the encoded identifiers of the page's first and last rows, or `None`
/// for an empty page.
pub fn assemble_page_info(page: &Page, pagination: &Pagination, has_next: Option<bool>) -> (pi:
    PageInfo)
    ensures
        pi.has_next_page == if !pagination.is_has_next_page {
            Option::<bool>::None
        } else if forward_shape(
            pagination.first,
            pagination.after,
            pagination.last,
            pagination.before,
        ) {
            has_next
        } else {
            Option::Some(false)
        },
        pi.has_previous_page == if pagination.is_has_previous_page {
            Option::Some(page.over_fetched)
        } else {
            Option::<bool>::None
        },
        page.rows@.len() == 0 ==> pi.start_cursor is None && pi.end_cursor is None,
        page.rows@.len() > 0 ==> {
            &&& pi.start_cursor matches Some(c) && c@ == spec_encode_cursor(
                page.rows@.first().id,
            )
            &&& pi.end_cursor matches Some(c) && c@ == spec_encode_cursor(page.rows@.last().id)
        },
{
    let has_next_page: Option<bool> = if !pagination.is_has_next_page {
        None
    } else if pagination.first.is_some() && pagination.last.is_none()
        && pagination.before.is_none() {
        has_next
    } else {
        Some(false)
    };

    let has_previous_page: Option<bool> = if pagination.is_has_previous_page {
        Some(page.over_fetched)
    } else {
        None
    };

    let (start_cursor, end_cursor) = if page.rows.len() > 0 {
        let start = encode_cursor(page.rows[0].id);
        let end = encode_cursor(page.rows[page.rows.len() - 1].id);
        (Some(start), Some(end))
    } else {
        (None, None)
    };

    PageInfo { end_cursor, has_next_page, start_cursor, has_previous_page }
}

impl Repository {
    /// Whether the fetched rows prove a previous page: for backward paging,
    /// strictly more rows came back than the requested `last` size. Forward
    /// paging has no such local signal and reports `false`.
    pub fn has_previous_page(&self, rows: &Vec<User>, last: Option<i32>) -> (r: Result<
        bool,
        Error,
    >)
        ensures
            match last {
                Option::Some(l) => if l >= 0 {
                    r == Ok::<bool, Error>(rows@.len() > l)
                } else {
                    r == Err::<bool, Error>(Error::NumericOverflow)
                },
                Option::None => r == Ok::<bool, Error>(false),
            },
    {
        match last {
            None => Ok(false),
            Some(l) => {
                if l < 0 {
                    Err(Error::NumericOverflow)
                } else {
                    Ok(rows.len() > l as usize)
                }
            },
        }
    }

    /// Execute the ordered, bounded read for the given arguments and strip
    /// the backward sentinel: one range read against the store, no count
    /// queries.
    ///
    /// The four supported shapes are forward from the start, forward from a
    /// cursor, backward from the end, and backward from a cursor; any other
    /// combination falls back to a default-size read from the start.
    pub fn fetch_page(
        &self,
        db: &mut MemoryStore,
        first: Option<i32>,
        after: Option<u128>,
        last: Option<i32>,
        before: Option<u128>,
    ) -> (r: Result<Page, Error>)
        requires
            old(db).wf(),
        ensures
            final(db).wf(),
            final(db).records == old(db).records,
            final(db).window_queries == old(db).window_queries,
            final(db).count_queries == old(db).count_queries,
            r is Ok <==> sizes_ok(first, last),
            r is Err ==> r == Err::<Page, Error>(Error::NumericOverflow) && final(db).read_queries
                == old(db).read_queries,
            r matches Ok(page) ==> {
                &&& final(db).read_queries == bumped(old(db).read_queries)
                &&& page.rows@ == spec_rows(old(db).records@, first, after, last, before)
                &&& page.over_fetched == spec_over_fetched(
                    old(db).records@,
                    first,
                    after,
                    last,
                    before,
                )
            },
    {
        if let Some(f) = first {
            if f < 0 {
                return Err(Error::NumericOverflow);
            }
        }
        if let Some(l) = last {
            if l < 0 {
                return Err(Error::NumericOverflow);
            }
        }
        let (raw, over_fetched): (Vec<User>, bool) = if first.is_some() && last.is_none()
            && before.is_none() {
            let f = match first {
                Some(f) => f,
                None => 0,
            };
            (db.read_ascending(after, f as usize), false)
        } else if first.is_none() && after.is_none() && last.is_some() {
            let l = match last {
                Some(l) => l,
                None => 0,
            };
            let raw = db.read_descending_then_reverse(before, l as usize + 1);
            let over_fetched = match self.has_previous_page(&raw, last) {
                Ok(b) => b,
                Err(e) => {
                    return Err(e);
                },
            };
            (raw, over_fetched)
        } else {
            // The fallback is a plain forward read: nothing was over-fetched
            // and nothing may be stripped.
            (db.read_ascending(None, DEFAULT_PAGE_SIZE), false)
        };
        let rows = trim_sentinel(raw, over_fetched);
        Ok(Page { rows, over_fetched })
    }

    /// Read the rows of one page: the fetch step alone, with the backward
    /// sentinel already stripped.
    pub fn find_all_users(
        &self,
        db: &mut MemoryStore,
        first: Option<i32>,
        after: Option<u128>,
        last: Option<i32>,
        before: Option<u128>,
    ) -> (r: Result<Vec<User>, Error>)
        requires
            old(db).wf(),
        ensures
            final(db).wf(),
            final(db).records == old(db).records,
            final(db).window_queries == old(db).window_queries,
            final(db).count_queries == old(db).count_queries,
            r is Ok <==> sizes_ok(first, last),
            r is Err ==> r == Err::<Vec<User>, Error>(Error::NumericOverflow),
            r matches Ok(rows) ==> rows@ == spec_rows(old(db).records@, first, after, last, before),
    {
        match self.fetch_page(db, first, after, last, before) {
            Ok(page) => Ok(page.rows),
            Err(e) => Err(e),
        }
    }

    /// Assemble the pagination metadata for a fetched page.
    ///
    /// `hasNextPage` costs a separate existence query and runs only when the
    /// caller requested the field and the paging shape is forward; backward
    /// paging reports `false` when asked. `hasPreviousPage` comes free from
    /// the over-fetch. Unrequested fields stay `None`. The boundary cursors
    /// are the encoded identifiers of the page's first and last rows, or
    /// `None` for an empty page.
    pub fn find_page_info(
        &self,
        db: &mut MemoryStore,
        page: &Page,
        pagination: &Pagination,
    ) -> (r: Result<PageInfo, Error>)
        requires
            old(db).wf(),
        ensures
            final(db).wf(),
            final(db).records == old(db).records,
            final(db).read_queries == old(db).read_queries,
            final(db).count_queries == old(db).count_queries,
            r is Err <==> (pagination.is_has_next_page && forward_shape(
                pagination.first,
                pagination.after,
                pagination.last,
                pagination.before,
            ) && pagination.first->Some_0 < 0),
            r is Err ==> r == Err::<PageInfo, Error>(Error::NumericOverflow)
                && final(db).window_queries == old(db).window_queries,
            r matches Ok(pi) ==> {
                &&& final(db).window_queries == if pagination.is_has_next_page && forward_shape(
                    pagination.first,
                    pagination.after,
                    pagination.last,
                    pagination.before,
                ) {
                    bumped(old(db).window_queries)
                } else {
                    old(db).window_queries
                }
                &&& pi.has_next_page == if pagination.is_has_next_page {
                    Option::Some(
                        spec_has_next(
                            old(db).records@,
                            pagination.first,
                            pagination.after,
                            pagination.last,
                            pagination.before,
                        ),
                    )
                } else {
                    Option::<bool>::None
                }
                &&& pi.has_previous_page == if pagination.is_has_previous_page {
                    Option::Some(page.over_fetched)
                } else {
                    Option::<bool>::None
                }
                &&& page.rows@.len() == 0 ==> pi.start_cursor is None && pi.end_cursor is None
                &&& page.rows@.len() > 0 ==> {
                    &&& pi.start_cursor matches Some(c) && c@ == spec_encode_cursor(
                        page.rows@.first().id,
                    )
                    &&& pi.end_cursor matches Some(c) && c@ == spec_encode_cursor(
                        page.rows@.last().id,
                    )
                }
            },
    {
        let has_next: Option<bool> = match existence_window(pagination) {
            Err(e) => {
                return Err(e);
            },
            Ok(None) => None,
            Ok(Some((after, limit))) => {
                let n = db.count_in_window(after, limit);
                // A full window of one more than the page size proves that
                // rows follow the page.
                Some(n == limit)
            },
        };
        Ok(assemble_page_info(page, pagination, has_next))
    }
}

} // verus!
