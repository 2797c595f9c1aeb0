use court_admin::court::{CourtStore, Order};
use court_admin::error::CourtError;

fn add(store: &mut CourtStore, admin_id: u64, name: &str, price: u64) -> Result<court_admin::court::Court, CourtError> {
    store.add_court(
        admin_id,
        name.to_string(),
        "downtown".to_string(),
        "outdoor".to_string(),
        price,
    )
}

#[test]
fn new_store_is_empty() {
    let store = CourtStore::new();
    assert!(store.has_capacity());
    assert!(store.list_courts(1).is_empty());
}

#[test]
fn add_then_list_includes_exactly_once() {
    let mut store = CourtStore::new();
    let court = add(&mut store, 7, "center court", 100).unwrap();
    assert_eq!(court.admin_id, 7);
    assert_eq!(court.court_name, "center court");
    assert_eq!(court.location, "downtown");
    assert_eq!(court.label, "outdoor");
    assert_eq!(court.price_per_hour, 100);
    let listed = store.list_courts(7);
    let matching: Vec<_> = listed.iter().filter(|c| c.court_id == court.court_id).collect();
    assert_eq!(matching.len(), 1);
    assert_eq!(matching[0].court_name, "center court");
}

#[test]
fn listing_is_scoped_to_the_admin() {
    let mut store = CourtStore::new();
    add(&mut store, 1, "north", 50).unwrap();
    add(&mut store, 2, "south", 60).unwrap();
    let listed = store.list_courts(1);
    assert_eq!(listed.len(), 1);
    assert_eq!(listed[0].court_name, "north");
    assert!(store.list_courts(3).is_empty());
}

#[test]
fn duplicate_name_same_admin_conflicts() {
    let mut store = CourtStore::new();
    add(&mut store, 1, "center court", 100).unwrap();
    let second = add(&mut store, 1, "center court", 120);
    assert!(matches!(second, Err(CourtError::DuplicateName)));
    assert_eq!(store.list_courts(1).len(), 1);
}

#[test]
fn duplicate_name_different_admins_both_succeed() {
    let mut store = CourtStore::new();
    let a = add(&mut store, 1, "center court", 100).unwrap();
    let b = add(&mut store, 2, "center court", 100).unwrap();
    assert_ne!(a.court_id, b.court_id);
    assert_eq!(store.list_courts(1).len(), 1);
    assert_eq!(store.list_courts(2).len(), 1);
}

#[test]
fn delete_with_future_order_conflicts_then_succeeds_after() {
    let mut store = CourtStore::new();
    let court = add(&mut store, 1, "center court", 100).unwrap();
    let orders = vec![Order { court_id: court.court_id, end_time: 1_000 }];
    let blocked = store.delete_court(1, court.court_id, &orders, 900);
    assert!(matches!(blocked, Err(CourtError::PendingOrders)));
    assert_eq!(store.list_courts(1).len(), 1);
    let after = store.delete_court(1, court.court_id, &orders, 1_001);
    assert!(after.is_ok());
    assert!(store.list_courts(1).is_empty());
}

#[test]
fn order_ending_exactly_now_still_blocks_deletion() {
    let mut store = CourtStore::new();
    let court = add(&mut store, 1, "center court", 100).unwrap();
    let orders = vec![Order { court_id: court.court_id, end_time: 1_000 }];
    let blocked = store.delete_court(1, court.court_id, &orders, 1_000);
    assert!(matches!(blocked, Err(CourtError::PendingOrders)));
}

#[test]
fn order_for_another_court_does_not_block_deletion() {
    let mut store = CourtStore::new();
    let court = add(&mut store, 1, "center court", 100).unwrap();
    let orders = vec![Order { court_id: court.court_id + 1, end_time: i64::MAX }];
    assert!(store.delete_court(1, court.court_id, &orders, 0).is_ok());
}

#[test]
fn delete_missing_court_not_found() {
    let mut store = CourtStore::new();
    let r = store.delete_court(1, 42, &Vec::new(), 0);
    assert!(matches!(r, Err(CourtError::NotFound)));
}

#[test]
fn delete_is_ownership_scoped() {
    let mut store = CourtStore::new();
    let court = add(&mut store, 1, "center court", 100).unwrap();
    let r = store.delete_court(2, court.court_id, &Vec::new(), 0);
    assert!(matches!(r, Err(CourtError::NotFound)));
    assert_eq!(store.list_courts(1).len(), 1);
}

#[test]
fn update_missing_court_not_found() {
    let mut store = CourtStore::new();
    let r = store.update_court(
        1,
        42,
        "new".to_string(),
        "loc".to_string(),
        "tag".to_string(),
        10,
    );
    assert!(matches!(r, Err(CourtError::NotFound)));
}

#[test]
fn update_is_ownership_scoped() {
    let mut store = CourtStore::new();
    let court = add(&mut store, 1, "center court", 100).unwrap();
    let r = store.update_court(
        2,
        court.court_id,
        "stolen".to_string(),
        "loc".to_string(),
        "tag".to_string(),
        10,
    );
    assert!(matches!(r, Err(CourtError::NotFound)));
    let kept = store.find_court(1, court.court_id).unwrap();
    assert_eq!(kept.court_name, "center court");
}

#[test]
fn update_replaces_all_mutable_fields() {
    let mut store = CourtStore::new();
    let court = add(&mut store, 1, "center court", 100).unwrap();
    let updated = store
        .update_court(
            1,
            court.court_id,
            "grand court".to_string(),
            "uptown".to_string(),
            "indoor".to_string(),
            150,
        )
        .unwrap();
    assert_eq!(updated.court_id, court.court_id);
    assert_eq!(updated.admin_id, 1);
    assert_eq!(updated.price_per_hour, 150);
    let fetched = store.find_court(1, court.court_id).unwrap();
    assert_eq!(fetched.court_name, "grand court");
    assert_eq!(fetched.location, "uptown");
    assert_eq!(fetched.label, "indoor");
    assert_eq!(fetched.price_per_hour, 150);
}

#[test]
fn rename_to_sibling_name_conflicts() {
    let mut store = CourtStore::new();
    let a = add(&mut store, 1, "north", 50).unwrap();
    let b = add(&mut store, 1, "south", 60).unwrap();
    let r = store.update_court(
        1,
        b.court_id,
        "north".to_string(),
        "loc".to_string(),
        "tag".to_string(),
        70,
    );
    assert!(matches!(r, Err(CourtError::DuplicateName)));
    let kept = store.find_court(1, b.court_id).unwrap();
    assert_eq!(kept.court_name, "south");
    assert_eq!(kept.price_per_hour, 60);
    assert_eq!(store.find_court(1, a.court_id).unwrap().court_name, "north");
}

#[test]
fn update_keeping_own_name_succeeds() {
    let mut store = CourtStore::new();
    let court = add(&mut store, 1, "north", 50).unwrap();
    let updated = store
        .update_court(
            1,
            court.court_id,
            "north".to_string(),
            "uptown".to_string(),
            "indoor".to_string(),
            80,
        )
        .unwrap();
    assert_eq!(updated.court_name, "north");
    assert_eq!(updated.price_per_hour, 80);
}

#[test]
fn rename_to_another_admins_name_succeeds() {
    let mut store = CourtStore::new();
    add(&mut store, 1, "north", 50).unwrap();
    let b = add(&mut store, 2, "south", 60).unwrap();
    let updated = store
        .update_court(
            2,
            b.court_id,
            "north".to_string(),
            "loc".to_string(),
            "tag".to_string(),
            60,
        )
        .unwrap();
    assert_eq!(updated.court_name, "north");
}

#[test]
fn update_keeps_other_courts_untouched() {
    let mut store = CourtStore::new();
    let a = add(&mut store, 1, "north", 50).unwrap();
    let b = add(&mut store, 1, "south", 60).unwrap();
    store
        .update_court(
            1,
            b.court_id,
            "south renewed".to_string(),
            "loc".to_string(),
            "tag".to_string(),
            70,
        )
        .unwrap();
    let kept = store.find_court(1, a.court_id).unwrap();
    assert_eq!(kept.court_name, "north");
    assert_eq!(kept.price_per_hour, 50);
}

#[test]
fn find_court_misses_foreign_and_absent_courts() {
    let mut store = CourtStore::new();
    let court = add(&mut store, 1, "center court", 100).unwrap();
    assert!(store.find_court(2, court.court_id).is_none());
    assert!(store.find_court(1, court.court_id + 1).is_none());
    assert!(store.find_court(1, court.court_id).is_some());
}

#[test]
fn delete_at_current_time_blocks_on_far_future_order() {
    let mut store = CourtStore::new();
    let court = add(&mut store, 1, "center court", 100).unwrap();
    let orders = vec![Order { court_id: court.court_id, end_time: i64::MAX }];
    let r = store.delete_court_at_current_time(1, court.court_id, &orders);
    assert!(matches!(r, Err(CourtError::PendingOrders)));
}

#[test]
fn delete_at_current_time_succeeds_without_orders() {
    let mut store = CourtStore::new();
    let court = add(&mut store, 1, "center court", 100).unwrap();
    let r = store.delete_court_at_current_time(1, court.court_id, &Vec::new());
    assert!(r.is_ok());
    assert!(store.list_courts(1).is_empty());
}

#[test]
fn fresh_identifiers_are_never_reused() {
    let mut store = CourtStore::new();
    let a = add(&mut store, 1, "north", 50).unwrap();
    store.delete_court(1, a.court_id, &Vec::new(), 0).unwrap();
    let b = add(&mut store, 1, "north", 50).unwrap();
    assert_ne!(a.court_id, b.court_id);
}
