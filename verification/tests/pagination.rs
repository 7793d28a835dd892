use relay_pagination::cursor::encode_cursor;
use relay_pagination::error::Error;
use relay_pagination::model::User;
use relay_pagination::repository::Repository;
use relay_pagination::service::{Pagination, Service};
use relay_pagination::store::MemoryStore;

fn user(id: u128) -> User {
    User {
        id,
        created_at: id as i64,
        name: format!("user-{}", id),
        full_name: None,
    }
}

fn store_with_ids(ids: std::ops::RangeInclusive<u128>) -> MemoryStore {
    let mut store = MemoryStore::new();
    for id in ids {
        assert!(store.push_user(user(id)));
    }
    store
}

fn request() -> Pagination {
    Pagination {
        first: None,
        after: None,
        last: None,
        before: None,
        is_total_count: false,
        is_has_next_page: false,
        is_has_previous_page: false,
    }
}

#[test]
fn forward_first_page() {
    // Store contains ids 1..=25 ascending; first=10 pages over ids 1..=10.
    let mut store = store_with_ids(1..=25);
    let service = Service::new(Repository::new());
    let mut pagination = request();
    pagination.first = Some(10);
    pagination.is_has_next_page = true;

    let conn = service.find_users(&mut store, pagination).unwrap();
    assert_eq!(conn.edges.len(), 10);
    for (i, edge) in conn.edges.iter().enumerate() {
        let expected_id = (i + 1) as u128;
        assert_eq!(edge.node.id, expected_id);
        assert_eq!(edge.cursor, encode_cursor(expected_id));
    }
    assert_eq!(conn.page_info.start_cursor, Some(encode_cursor(1)));
    assert_eq!(conn.page_info.end_cursor, Some(encode_cursor(10)));
    assert_eq!(conn.page_info.has_next_page, Some(true));
    assert_eq!(conn.page_info.has_previous_page, None);
    assert_eq!(conn.total_count, None);
}

#[test]
fn forward_from_cursor() {
    let mut store = store_with_ids(1..=25);
    let service = Service::new(Repository::new());
    let mut pagination = request();
    pagination.first = Some(10);
    pagination.after = Some(encode_cursor(10));
    pagination.is_has_next_page = true;

    let conn = service.find_users(&mut store, pagination).unwrap();
    let ids: Vec<u128> = conn.edges.iter().map(|e| e.node.id).collect();
    assert_eq!(ids, (11..=20).collect::<Vec<u128>>());
    assert_eq!(conn.page_info.has_next_page, Some(true));

    // The last forward window: ids 21..=25, and nothing follows it.
    let mut pagination = request();
    pagination.first = Some(10);
    pagination.after = Some(encode_cursor(20));
    pagination.is_has_next_page = true;
    let conn = service.find_users(&mut store, pagination).unwrap();
    let ids: Vec<u128> = conn.edges.iter().map(|e| e.node.id).collect();
    assert_eq!(ids, (21..=25).collect::<Vec<u128>>());
    assert_eq!(conn.page_info.has_next_page, Some(false));
}

#[test]
fn backward_last_page() {
    // Same store; last=5 with no before pages over ids 21..=25 ascending,
    // and 20 rows precede them.
    let mut store = store_with_ids(1..=25);
    let service = Service::new(Repository::new());
    let mut pagination = request();
    pagination.last = Some(5);
    pagination.is_has_previous_page = true;

    let conn = service.find_users(&mut store, pagination).unwrap();
    let ids: Vec<u128> = conn.edges.iter().map(|e| e.node.id).collect();
    assert_eq!(ids, (21..=25).collect::<Vec<u128>>());
    assert_eq!(conn.page_info.has_previous_page, Some(true));
    assert_eq!(conn.page_info.start_cursor, Some(encode_cursor(21)));
    assert_eq!(conn.page_info.end_cursor, Some(encode_cursor(25)));
}

#[test]
fn backward_from_cursor() {
    let mut store = store_with_ids(1..=25);
    let service = Service::new(Repository::new());
    let mut pagination = request();
    pagination.last = Some(5);
    pagination.before = Some(encode_cursor(11));
    pagination.is_has_previous_page = true;

    let conn = service.find_users(&mut store, pagination).unwrap();
    let ids: Vec<u128> = conn.edges.iter().map(|e| e.node.id).collect();
    assert_eq!(ids, (6..=10).collect::<Vec<u128>>());
    assert_eq!(conn.page_info.has_previous_page, Some(true));

    // Exactly the requested number of rows precede the boundary: no earlier page.
    let mut pagination = request();
    pagination.last = Some(5);
    pagination.before = Some(encode_cursor(6));
    pagination.is_has_previous_page = true;
    let conn = service.find_users(&mut store, pagination).unwrap();
    let ids: Vec<u128> = conn.edges.iter().map(|e| e.node.id).collect();
    assert_eq!(ids, (1..=5).collect::<Vec<u128>>());
    assert_eq!(conn.page_info.has_previous_page, Some(false));
}

#[test]
fn empty_store_forward() {
    // Empty store, first=10: no edges, no cursors, no next page.
    let mut store = MemoryStore::new();
    let service = Service::new(Repository::new());
    let mut pagination = request();
    pagination.first = Some(10);
    pagination.is_has_next_page = true;

    let conn = service.find_users(&mut store, pagination).unwrap();
    assert!(conn.edges.is_empty());
    assert_eq!(conn.page_info.start_cursor, None);
    assert_eq!(conn.page_info.end_cursor, None);
    assert_eq!(conn.page_info.has_next_page, Some(false));
}

#[test]
fn after_maximum_id_gives_empty_page() {
    // The after cursor decodes to the maximum id present: nothing follows.
    let mut store = store_with_ids(1..=25);
    let service = Service::new(Repository::new());
    let mut pagination = request();
    pagination.first = Some(10);
    pagination.after = Some(encode_cursor(25));
    pagination.is_has_next_page = true;

    let conn = service.find_users(&mut store, pagination).unwrap();
    assert!(conn.edges.is_empty());
    assert_eq!(conn.page_info.start_cursor, None);
    assert_eq!(conn.page_info.end_cursor, None);
    assert_eq!(conn.page_info.has_next_page, Some(false));
}

#[test]
fn conflicting_and_missing_page_sizes() {
    let mut store = store_with_ids(1..=5);
    let service = Service::new(Repository::new());

    let mut pagination = request();
    pagination.first = Some(3);
    pagination.last = Some(3);
    let result = service.find_users(&mut store, pagination);
    assert!(matches!(result, Err(Error::ConflictingPageSizeArguments)));

    let pagination = request();
    let result = service.find_users(&mut store, pagination);
    assert!(matches!(result, Err(Error::MissingPageSizeArgument)));
}

#[test]
fn invalid_cursor_is_rejected() {
    let mut store = store_with_ids(1..=5);
    let service = Service::new(Repository::new());

    let mut pagination = request();
    pagination.first = Some(3);
    pagination.after = Some(String::from("stale-or-forged"));
    let result = service.find_users(&mut store, pagination);
    assert!(matches!(result, Err(Error::InvalidCursor)));

    let mut pagination = request();
    pagination.last = Some(3);
    pagination.before = Some(String::from("XYZ"));
    let result = service.find_users(&mut store, pagination);
    assert!(matches!(result, Err(Error::InvalidCursor)));
}

#[test]
fn negative_page_sizes_overflow() {
    let mut store = store_with_ids(1..=5);
    let service = Service::new(Repository::new());

    let mut pagination = request();
    pagination.first = Some(-1);
    let result = service.find_users(&mut store, pagination);
    assert!(matches!(result, Err(Error::NumericOverflow)));

    let mut pagination = request();
    pagination.last = Some(-7);
    let result = service.find_users(&mut store, pagination);
    assert!(matches!(result, Err(Error::NumericOverflow)));
}

#[test]
fn unrequested_total_count_runs_no_count_query() {
    // totalCount was not selected: the call must not run a count query.
    let mut store = store_with_ids(1..=25);
    let service = Service::new(Repository::new());
    let mut pagination = request();
    pagination.first = Some(10);
    pagination.is_has_next_page = true;
    pagination.is_has_previous_page = true;

    let conn = service.find_users(&mut store, pagination).unwrap();
    assert_eq!(conn.total_count, None);
    assert_eq!(store.count_queries, 0);
    assert_eq!(store.read_queries, 1);
}

#[test]
fn requested_total_count_counts_the_whole_collection() {
    let mut store = store_with_ids(1..=25);
    let service = Service::new(Repository::new());
    let mut pagination = request();
    // The count ignores the boundary: it reports the whole collection.
    pagination.first = Some(3);
    pagination.after = Some(encode_cursor(20));
    pagination.is_total_count = true;

    let conn = service.find_users(&mut store, pagination).unwrap();
    assert_eq!(conn.total_count, Some(25));
    assert_eq!(store.count_queries, 1);
    assert_eq!(store.read_queries, 1);
    assert_eq!(store.window_queries, 0);
}

#[test]
fn unrequested_has_next_page_runs_no_existence_query() {
    let mut store = store_with_ids(1..=25);
    let service = Service::new(Repository::new());
    let mut pagination = request();
    pagination.first = Some(10);

    let conn = service.find_users(&mut store, pagination).unwrap();
    assert_eq!(conn.page_info.has_next_page, None);
    assert_eq!(conn.page_info.has_previous_page, None);
    assert_eq!(store.window_queries, 0);
}

#[test]
fn has_next_page_requested_while_paging_backward() {
    // The backward direction answers hasNextPage with the known default
    // rather than running a second existence query.
    let mut store = store_with_ids(1..=25);
    let service = Service::new(Repository::new());
    let mut pagination = request();
    pagination.last = Some(5);
    pagination.is_has_next_page = true;

    let conn = service.find_users(&mut store, pagination).unwrap();
    assert_eq!(conn.page_info.has_next_page, Some(false));
    assert_eq!(store.window_queries, 0);
}

#[test]
fn fallback_to_default_page_size() {
    // first together with before names no supported shape: the read falls
    // back to the default page size with no boundary cursor.
    let mut store = store_with_ids(1..=25);
    let service = Service::new(Repository::new());
    let mut pagination = request();
    pagination.first = Some(3);
    pagination.before = Some(encode_cursor(20));

    let conn = service.find_users(&mut store, pagination).unwrap();
    let ids: Vec<u128> = conn.edges.iter().map(|e| e.node.id).collect();
    assert_eq!(ids, (1..=10).collect::<Vec<u128>>());
}

#[test]
fn fallback_with_last_keeps_every_row() {
    // last together with after also names no supported shape: the fallback
    // read is a plain forward window, so no sentinel exists, nothing is
    // stripped, and no previous page is claimed.
    let mut store = store_with_ids(1..=25);
    let service = Service::new(Repository::new());
    let mut pagination = request();
    pagination.last = Some(2);
    pagination.after = Some(encode_cursor(1));
    pagination.is_has_previous_page = true;

    let conn = service.find_users(&mut store, pagination).unwrap();
    let ids: Vec<u128> = conn.edges.iter().map(|e| e.node.id).collect();
    assert_eq!(ids, (1..=10).collect::<Vec<u128>>());
    assert_eq!(conn.page_info.has_previous_page, Some(false));
    assert_eq!(conn.page_info.start_cursor, Some(encode_cursor(1)));
}

#[test]
fn failed_validation_issues_no_query() {
    let mut store = store_with_ids(1..=5);
    let service = Service::new(Repository::new());

    let mut pagination = request();
    pagination.first = Some(3);
    pagination.last = Some(3);
    pagination.is_total_count = true;
    pagination.is_has_next_page = true;
    assert!(service.find_users(&mut store, pagination).is_err());

    let mut pagination = request();
    pagination.is_total_count = true;
    assert!(service.find_users(&mut store, pagination).is_err());

    let mut pagination = request();
    pagination.first = Some(3);
    pagination.after = Some(String::from("not-a-cursor"));
    pagination.is_total_count = true;
    assert!(service.find_users(&mut store, pagination).is_err());

    let mut pagination = request();
    pagination.first = Some(-1);
    pagination.is_total_count = true;
    assert!(service.find_users(&mut store, pagination).is_err());

    assert_eq!(store.read_queries, 0);
    assert_eq!(store.window_queries, 0);
    assert_eq!(store.count_queries, 0);
}

#[test]
fn short_backward_page_has_no_previous() {
    // Fewer rows exist than requested: the whole store comes back and no
    // previous page is reported.
    let mut store = store_with_ids(1..=3);
    let service = Service::new(Repository::new());
    let mut pagination = request();
    pagination.last = Some(5);
    pagination.is_has_previous_page = true;

    let conn = service.find_users(&mut store, pagination).unwrap();
    let ids: Vec<u128> = conn.edges.iter().map(|e| e.node.id).collect();
    assert_eq!(ids, (1..=3).collect::<Vec<u128>>());
    assert_eq!(conn.page_info.has_previous_page, Some(false));
}
