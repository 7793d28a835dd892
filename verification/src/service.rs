use vstd::prelude::*;

use crate::cursor::{decode_cursor, decode_val, spec_encode_cursor, valid_cursor};
use crate::error::Error;
use crate::model::{UserConnection, UserEdge};
use crate::repository;
use crate::repository::{
    backward_shape, forward_shape, sizes_ok, spec_has_next, spec_over_fetched, spec_rows,
    Repository,
};
use crate::store::{bumped, end_bound, MemoryStore};

verus! {

/// The paging intent exactly as the API layer hands it over: raw sizes,
/// opaque cursor strings, and which optional metadata fields the caller's
/// field selection actually named.
#[derive(Debug)]
pub struct Pagination {
    pub first: Option<i32>,
    pub after: Option<String>,
    pub last: Option<i32>,
    pub before: Option<String>,
    pub is_total_count: bool,
    pub is_has_next_page: bool,
    pub is_has_previous_page: bool,
}

/// Exactly one of `first`/`last` was supplied.
pub open spec fn one_size(p: Pagination) -> bool {
    (p.first is Some) != (p.last is Some)
}

/// Every supplied cursor string is well formed.
pub open spec fn cursors_ok(p: Pagination) -> bool {
    &&& (p.after matches Some(s) ==> valid_cursor(s@))
    &&& (p.before matches Some(s) ==> valid_cursor(s@))
}

/// The identifier the `after` cursor decodes to, where one was supplied.
pub open spec fn decoded_after(p: Pagination) -> Option<u128> {
    match p.after {
        Option::None => Option::None,
        Option::Some(s) => Option::Some(decode_val(s@) as u128),
    }
}

/// The identifier the `before` cursor decodes to, where one was supplied.
pub open spec fn decoded_before(p: Pagination) -> Option<u128> {
    match p.before {
        Option::None => Option::None,
        Option::Some(s) => Option::Some(decode_val(s@) as u128),
    }
}

/// The whole-collection count cannot be reported when it exceeds the count
/// field's range.
pub open spec fn total_count_overflows(s: Seq<crate::model::User>, p: Pagination) -> bool {
    p.is_total_count && s.len() > i64::MAX
}

/// The pagination service facade: validates the request, decodes its
/// cursors, and orchestrates fetch and assembly. Stateless per call.
#[derive(Debug)]
pub struct Service {
    pub repo: Repository,
}

impl Clone for Service {
    fn clone(&self) -> (r: Self)
        ensures
            r == *self,
    {
        Service { repo: self.repo.clone() }
    }
}

/// Validate the mutually exclusive page-size arguments: supplying neither
/// fails with `MissingPageSizeArgument`, supplying both with
/// `ConflictingPageSizeArguments`; exactly one survives.
pub fn validate_page_sizes(first: Option<i32>, last: Option<i32>) -> (r: Result<(), Error>)
    ensures
        r == Err::<(), Error>(Error::MissingPageSizeArgument) <==> (first is None
            && last is None),
        r == Err::<(), Error>(Error::ConflictingPageSizeArguments) <==> (first is Some
            && last is Some),
        r is Ok <==> (first is Some) != (last is Some),
{
    match (first, last) {
        (None, None) => Err(Error::MissingPageSizeArgument),
        (Some(_), Some(_)) => Err(Error::ConflictingPageSizeArguments),
        _ => Ok(()),
    }
}

impl Service {
    pub fn new(repo: Repository) -> (s: Service)
        ensures
            s.repo == repo,
    {
        Service { repo }
    }

    /// Run one pagination request against the store and return the full
    /// connection, or the first failure of any stage, unchanged.
    ///
    /// Validation: supplying neither `first` nor `last` fails with
    /// `MissingPageSizeArgument`, supplying both with
    /// `ConflictingPageSizeArguments`; a malformed cursor fails with
    /// `InvalidCursor`; a negative size or an unreportable count fails with
    /// `NumericOverflow`. Otherwise the connection holds the fetched window
    /// as edges in strictly ascending identifier order, boundary cursors for
    /// the window, exactly the metadata fields the caller asked for, and the
    /// count of the whole collection when requested — computed with no count
    /// query otherwise.
    pub fn find_users(&self, db: &mut MemoryStore, pagination: Pagination) -> (r: Result<
        UserConnection,
        Error,
    >)
        requires
            old(db).wf(),
        ensures
            final(db).wf(),
            final(db).records == old(db).records,
            // Which failure comes back, and exactly when.
            (r == Err::<UserConnection, Error>(Error::MissingPageSizeArgument)) <==> (
            pagination.first is None && pagination.last is None),
            (r == Err::<UserConnection, Error>(Error::ConflictingPageSizeArguments)) <==> (
            pagination.first is Some && pagination.last is Some),
            (r == Err::<UserConnection, Error>(Error::InvalidCursor)) <==> (one_size(pagination)
                && !cursors_ok(pagination)),
            (r == Err::<UserConnection, Error>(Error::NumericOverflow)) <==> (one_size(pagination)
                && cursors_ok(pagination) && (!sizes_ok(pagination.first, pagination.last)
                || total_count_overflows(old(db).records@, pagination))),
            r is Ok <==> (one_size(pagination) && cursors_ok(pagination) && sizes_ok(
                pagination.first,
                pagination.last,
            ) && !total_count_overflows(old(db).records@, pagination)),
            // No count query unless the caller asked for the total count, and
            // no existence query unless the caller asked for hasNextPage.
            !pagination.is_total_count ==> final(db).count_queries == old(db).count_queries,
            !pagination.is_has_next_page ==> final(db).window_queries == old(db).window_queries,
            // A failure before the read — missing, conflicting or negative
            // sizes, or a malformed cursor — issues no query of any kind.
            !(one_size(pagination) && cursors_ok(pagination) && sizes_ok(
                pagination.first,
                pagination.last,
            )) ==> final(db).read_queries == old(db).read_queries && final(db).window_queries
                == old(db).window_queries && final(db).count_queries == old(db).count_queries,
            // A valid request runs exactly one range read, one count query
            // iff the total count was requested, and one existence query iff
            // hasNextPage was requested on a forward shape.
            one_size(pagination) && cursors_ok(pagination) && sizes_ok(
                pagination.first,
                pagination.last,
            ) ==> {
                &&& final(db).read_queries == bumped(old(db).read_queries)
                &&& final(db).count_queries == if pagination.is_total_count {
                    bumped(old(db).count_queries)
                } else {
                    old(db).count_queries
                }
                &&& final(db).window_queries == if pagination.is_has_next_page && forward_shape(
                    pagination.first,
                    decoded_after(pagination),
                    pagination.last,
                    decoded_before(pagination),
                ) {
                    bumped(old(db).window_queries)
                } else {
                    old(db).window_queries
                }
            },
            // The connection itself.
            r matches Ok(conn) ==> {
                let s = old(db).records@;
                let rows = spec_rows(
                    s,
                    pagination.first,
                    decoded_after(pagination),
                    pagination.last,
                    decoded_before(pagination),
                );
                &&& conn.edges@.len() == rows.len()
                &&& forall|j: int|
                    0 <= j < rows.len() ==> (#[trigger] conn.edges@[j]).node == rows[j]
                        && conn.edges@[j].cursor@ == spec_encode_cursor(rows[j].id)
                &&& conn.total_count == if pagination.is_total_count {
                    Option::Some(s.len() as i64)
                } else {
                    Option::<i64>::None
                }
                &&& conn.page_info.has_next_page == if pagination.is_has_next_page {
                    Option::Some(
                        spec_has_next(
                            s,
                            pagination.first,
                            decoded_after(pagination),
                            pagination.last,
                            decoded_before(pagination),
                        ),
                    )
                } else {
                    Option::<bool>::None
                }
                &&& conn.page_info.has_previous_page == if pagination.is_has_previous_page {
                    Option::Some(
                        spec_over_fetched(
                            s,
                            pagination.first,
                            decoded_after(pagination),
                            pagination.last,
                            decoded_before(pagination),
                        ),
                    )
                } else {
                    Option::<bool>::None
                }
                &&& rows.len() == 0 ==> conn.page_info.start_cursor is None
                    && conn.page_info.end_cursor is None
                &&& rows.len() > 0 ==> {
                    &&& conn.page_info.start_cursor matches Some(c) && c@ == spec_encode_cursor(
                        rows.first().id,
                    )
                    &&& conn.page_info.end_cursor matches Some(c) && c@ == spec_encode_cursor(
                        rows.last().id,
                    )
                }
            },
            // Every page is strictly ascending by identifier.
            r matches Ok(conn) ==> forall|i: int, j: int|
                0 <= i < j < conn.edges@.len() ==> (#[trigger] conn.edges@[i]).node.id < (
                #[trigger] conn.edges@[j]).node.id,
            // A forward page holds at most `first` rows.
            r matches Ok(conn) ==> (pagination.first matches Some(f) ==> (pagination.before is None
                ==> conn.edges@.len() <= f)),
            // A backward page holds at most `last` rows, and hasPreviousPage,
            // when requested, reports exactly whether strictly more than
            // `last` rows lie before the boundary (or before the end).
            r matches Ok(conn) ==> (pagination.last matches Some(l) ==> (pagination.after is None
                ==> conn.edges@.len() <= l && (pagination.is_has_previous_page
                ==> conn.page_info.has_previous_page == Option::Some(
                end_bound(old(db).records@, decoded_before(pagination)) > l,
            )))),
    {
        let first = pagination.first;
        let last = pagination.last;
        if let Err(e) = validate_page_sizes(first, last) {
            return Err(e);
        }

        let after_id: Option<u128> = match &pagination.after {
            None => None,
            Some(cursor) => match decode_cursor(cursor.as_str()) {
                Ok(id) => Some(id),
                Err(e) => {
                    return Err(e);
                },
            },
        };
        let before_id: Option<u128> = match &pagination.before {
            None => None,
            Some(cursor) => match decode_cursor(cursor.as_str()) {
                Ok(id) => Some(id),
                Err(e) => {
                    return Err(e);
                },
            },
        };

        let pagination_db = repository::Pagination {
            first,
            after: after_id,
            last,
            before: before_id,
            is_total_count: pagination.is_total_count,
            is_has_next_page: pagination.is_has_next_page,
            is_has_previous_page: pagination.is_has_previous_page,
        };

        let page = match self.repo.fetch_page(db, first, after_id, last, before_id) {
            Ok(page) => page,
            Err(e) => {
                return Err(e);
            },
        };

        let page_info = match self.repo.find_page_info(db, &page, &pagination_db) {
            Ok(page_info) => page_info,
            Err(e) => {
                return Err(e);
            },
        };

        let total_count: Option<i64> = if pagination.is_total_count {
            let n = db.count_all();
            if n as u64 > i64::MAX as u64 {
                return Err(Error::NumericOverflow);
            }
            Some(n as i64)
        } else {
            None
        };

        proof {
            repository::lemma_page_rows(
                old(db).records@,
                first,
                after_id,
                last,
                before_id,
            );
        }

        let connection_db = repository::UserConnection { edges: page.rows, page_info, total_count };

        let ghost rows_spec = spec_rows(
            old(db).records@,
            first,
            after_id,
            last,
            before_id,
        );
        let mut user_edges: Vec<UserEdge> = Vec::new();
        let mut i: usize = 0;
        let n = connection_db.edges.len();
        while i < n
            invariant
                n == connection_db.edges@.len(),
                connection_db.edges@ == rows_spec,
                0 <= i <= n,
                user_edges@.len() == i,
                forall|j: int|
                    0 <= j < i ==> (#[trigger] user_edges@[j]).node == rows_spec[j]
                        && user_edges@[j].cursor@ == spec_encode_cursor(rows_spec[j].id),
            decreases n - i,
        {
            let user = connection_db.edges[i].clone();
            let edge = UserEdge::from_user(user);
            user_edges.push(edge);
            i = i + 1;
        }

        let user_connection = UserConnection {
            edges: user_edges,
            page_info: connection_db.page_info,
            total_count: connection_db.total_count,
        };

        Ok(user_connection)
    }
}

} // verus!
