use vstd::prelude::*;

use crate::cursor::{encode_cursor, spec_encode_cursor, valid_cursor};

verus! {

/// A persisted record: a sortable unique identifier, a creation timestamp,
/// and payload fields. Identifiers are monotonically comparable and are the
/// sole ordering key; records are read-only to the pagination core.
#[derive(Debug)]
pub struct User {
    pub id: u128,
    pub created_at: i64,
    pub name: String,
    pub full_name: Option<String>,
}

impl Clone for User {
    fn clone(&self) -> (r: Self)
        ensures
            r == *self,
    {
        let full_name = match &self.full_name {
            Some(s) => Some(s.clone()),
            None => None,
        };
        User {
            id: self.id,
            created_at: self.created_at,
            name: self.name.clone(),
            full_name,
        }
    }
}

/// One row of the final page, paired with the cursor that addresses it.
#[derive(Debug)]
pub struct UserEdge {
    /// The item at the end of the edge.
    pub node: User,
    /// A cursor for use in pagination.
    pub cursor: String,
}

impl UserEdge {
    /// Build the edge for one record: the node is the record itself and the
    /// cursor is its encoded identifier.
    pub fn from_user(user: User) -> (e: UserEdge)
        ensures
            e.node == user,
            e.cursor@ == spec_encode_cursor(user.id),
            valid_cursor(e.cursor@),
    {
        let cursor = encode_cursor(user.id);
        UserEdge { node: user, cursor }
    }
}

/// Pagination metadata for one returned page.
///
/// `has_next_page`/`has_previous_page` are `None` when the caller did not
/// request them; computing them costs an extra query, which is skipped in
/// that case. `None` is distinct from `Some(false)`.
#[derive(Debug)]
pub struct PageInfo {
    /// When paginating forwards, the cursor to continue.
    pub end_cursor: Option<String>,
    /// When paginating forwards, are there more items?
    pub has_next_page: Option<bool>,
    /// When paginating backwards, the cursor to continue.
    pub start_cursor: Option<String>,
    /// When paginating backwards, are there more items?
    pub has_previous_page: Option<bool>,
}

/// The connection object returned to the API layer: edges with cursors,
/// page metadata, and the optional total count of the whole collection.
#[derive(Debug)]
pub struct UserConnection {
    /// A list of edges.
    pub edges: Vec<UserEdge>,
    /// Information to aid in pagination.
    pub page_info: PageInfo,
    /// Identifies the total count of items in the connection.
    pub total_count: Option<i64>,
}

} // verus!
