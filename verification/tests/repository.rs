use relay_pagination::error::Error;
use relay_pagination::model::{User, UserEdge};
use relay_pagination::repository::{trim_sentinel, Repository};
use relay_pagination::store::MemoryStore;

fn user(id: u128) -> User {
    User {
        id,
        created_at: id as i64,
        name: format!("user-{}", id),
        full_name: Some(format!("User {}", id)),
    }
}

fn store_with_ids(ids: std::ops::RangeInclusive<u128>) -> MemoryStore {
    let mut store = MemoryStore::new();
    for id in ids {
        assert!(store.push_user(user(id)));
    }
    store
}

#[test]
fn has_previous_page_counts_against_last() {
    let repo = Repository::new();
    let rows = vec![user(1), user(2), user(3)];
    assert_eq!(repo.has_previous_page(&rows, Some(2)), Ok(true));
    assert_eq!(repo.has_previous_page(&rows, Some(3)), Ok(false));
    assert_eq!(repo.has_previous_page(&rows, None), Ok(false));
    assert_eq!(repo.has_previous_page(&rows, Some(-1)), Err(Error::NumericOverflow));
}

#[test]
fn trim_sentinel_drops_only_the_sentinel() {
    let rows = vec![user(5), user(6), user(7)];
    let trimmed = trim_sentinel(rows, true);
    let ids: Vec<u128> = trimmed.iter().map(|u| u.id).collect();
    assert_eq!(ids, vec![6, 7]);

    let rows = vec![user(5), user(6), user(7)];
    let kept = trim_sentinel(rows, false);
    let ids: Vec<u128> = kept.iter().map(|u| u.id).collect();
    assert_eq!(ids, vec![5, 6, 7]);
}

#[test]
fn find_all_users_backward_overfetches_then_strips() {
    let mut store = store_with_ids(1..=25);
    let repo = Repository::new();
    // Backward from the end: the read brings one sentinel row, which the
    // returned page no longer contains.
    let rows = repo.find_all_users(&mut store, None, None, Some(5), None).unwrap();
    let ids: Vec<u128> = rows.iter().map(|u| u.id).collect();
    assert_eq!(ids, (21..=25).collect::<Vec<u128>>());
    assert_eq!(store.read_queries, 1);
}

#[test]
fn find_all_users_forward_window() {
    let mut store = store_with_ids(1..=25);
    let repo = Repository::new();
    let rows = repo.find_all_users(&mut store, Some(4), Some(10), None, None).unwrap();
    let ids: Vec<u128> = rows.iter().map(|u| u.id).collect();
    assert_eq!(ids, vec![11, 12, 13, 14]);
}

#[test]
fn push_user_keeps_identifier_order() {
    let mut store = MemoryStore::new();
    assert!(store.push_user(user(10)));
    assert!(store.push_user(user(20)));
    // A non-ascending identifier is refused and nothing changes.
    assert!(!store.push_user(user(20)));
    assert!(!store.push_user(user(5)));
    assert_eq!(store.len(), 2);
}

#[test]
fn edge_cursor_addresses_its_node() {
    let edge = UserEdge::from_user(user(42));
    assert_eq!(edge.node.id, 42);
    assert_eq!(edge.cursor, relay_pagination::cursor::encode_cursor(42));
    assert_eq!(edge.node.full_name, Some(String::from("User 42")));
}
