use ad_server::advertisement::{Advertisement, Condition};
use ad_server::country::Country;
use ad_server::store::Store;

const HOUR: i64 = 3600;

fn ad(title: &str, lo: i32, hi: i32, country: Option<u32>, end_at: i64) -> Advertisement {
    Advertisement {
        title: title.to_string(),
        age_range: (lo, hi),
        country: country.map(Country::from_id),
        platform: None,
        gender: None,
        end_at,
    }
}

fn cond(age: Option<i32>, country: Option<u32>) -> Condition {
    Condition {
        age,
        country: country.map(Country::from_id),
        platform: None,
        gender: None,
    }
}

#[test]
fn insert_then_read_matches_exactly() {
    let now: i64 = 1_700_000_000;
    let mut store = Store::new();
    store.insert(ad("sale", 18, 65, Some(840), now + HOUR));
    let rows = store.query_partial(&cond(Some(30), Some(840)), 10, 0, now);
    assert_eq!(rows.len(), 1);
    assert_eq!(rows[0].title, "sale");
    assert_eq!(rows[0].end_at, now + HOUR);
    assert_eq!(rows[0].id, 1);

    let none = store.query_partial(&cond(Some(70), Some(840)), 10, 0, now);
    assert!(none.is_empty());
}

#[test]
fn expired_advertisement_is_never_returned() {
    let now: i64 = 1_700_000_000;
    let mut store = Store::new();
    store.insert(ad("old", 0, 99, Some(840), now - 1));
    let all = store.query_partial(&cond(None, None), 10, 0, now);
    assert!(all.is_empty());
    let targeted = store.query_partial(&cond(Some(30), Some(840)), 10, 0, now);
    assert!(targeted.is_empty());
}

#[test]
fn expiry_is_exclusive() {
    let now: i64 = 1_700_000_000;
    let mut store = Store::new();
    store.insert(ad("edge", 0, 99, None, now));
    assert!(store.query_partial(&cond(None, None), 10, 0, now).is_empty());
    assert_eq!(store.query_partial(&cond(None, None), 10, 0, now - 1).len(), 1);
}

#[test]
fn age_bounds_are_inclusive() {
    let now: i64 = 1_700_000_000;
    let mut store = Store::new();
    store.insert(ad("band", 18, 65, None, now + HOUR));
    assert_eq!(store.query_partial(&cond(Some(18), None), 10, 0, now).len(), 1);
    assert_eq!(store.query_partial(&cond(Some(65), None), 10, 0, now).len(), 1);
    assert!(store.query_partial(&cond(Some(17), None), 10, 0, now).is_empty());
    assert!(store.query_partial(&cond(Some(66), None), 10, 0, now).is_empty());
}

#[test]
fn absent_attribute_never_matches_present_filter() {
    let now: i64 = 1_700_000_000;
    let mut store = Store::new();
    store.insert(ad("anywhere", 0, 99, None, now + HOUR));
    assert!(store.query_partial(&cond(None, Some(840)), 10, 0, now).is_empty());
    assert_eq!(store.query_partial(&cond(None, None), 10, 0, now).len(), 1);
}

#[test]
fn pagination_is_ordered_and_bounded() {
    let now: i64 = 1_700_000_000;
    let mut store = Store::new();
    for i in 0..5 {
        store.insert(ad(&format!("ad{}", i), 0, 99, None, now + HOUR));
    }
    let page1 = store.query_partial(&cond(None, None), 2, 0, now);
    assert_eq!(page1.len(), 2);
    assert_eq!((page1[0].id, page1[1].id), (1, 2));
    let page2 = store.query_partial(&cond(None, None), 2, 2, now);
    assert_eq!((page2[0].id, page2[1].id), (3, 4));
    let tail = store.query_partial(&cond(None, None), 10, 4, now);
    assert_eq!(tail.len(), 1);
    assert_eq!(tail[0].id, 5);
    let past_end = store.query_partial(&cond(None, None), 10, 9, now);
    assert!(past_end.is_empty());
}

#[test]
fn zero_limit_returns_empty() {
    let now: i64 = 1_700_000_000;
    let mut store = Store::new();
    store.insert(ad("sale", 0, 99, None, now + HOUR));
    assert!(store.query_partial(&cond(None, None), 0, 0, now).is_empty());
}
