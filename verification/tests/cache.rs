use ad_server::advertisement::PartialAdvertisement;
use ad_server::cache::{Lookup, ReadCache};
use ad_server::request::Params;

fn key(limit: usize, offset: usize, age: Option<i32>) -> Params {
    Params { offset, limit, age, country: None, platform: None, gender: None }
}

fn rows(n: usize) -> Vec<PartialAdvertisement> {
    (0..n)
        .map(|i| PartialAdvertisement {
            id: i as i32,
            title: format!("ad{}", i),
            end_at: 1_900_000_000,
        })
        .collect()
}

#[test]
fn single_flight_second_caller_waits() {
    let mut c = ReadCache::new();
    let k = key(1, 0, Some(30));
    assert!(matches!(c.lookup(&k, 0), Lookup::MustCompute));
    assert!(matches!(c.lookup(&k, 0), Lookup::Wait));
    assert!(matches!(c.lookup(&k, 1000), Lookup::Wait));
    c.complete_ok(&k, rows(2), 5);
    match c.lookup(&k, 6) {
        Lookup::Hit(v) => assert_eq!(v.len(), 2),
        _ => panic!("expected a hit"),
    }
}

#[test]
fn distinct_keys_do_not_share_flights() {
    let mut c = ReadCache::new();
    let k1 = key(1, 0, Some(30));
    let k2 = key(1, 0, Some(31));
    let k3 = key(2, 0, Some(30));
    assert!(matches!(c.lookup(&k1, 0), Lookup::MustCompute));
    assert!(matches!(c.lookup(&k2, 0), Lookup::MustCompute));
    assert!(matches!(c.lookup(&k3, 0), Lookup::MustCompute));
    assert!(matches!(c.lookup(&k1, 0), Lookup::Wait));
}

#[test]
fn entry_expires_after_ttl() {
    let mut c = ReadCache::new();
    let k = key(1, 0, None);
    assert!(matches!(c.lookup(&k, 0), Lookup::MustCompute));
    c.complete_ok(&k, rows(1), 0);
    assert!(matches!(c.lookup(&k, 59), Lookup::Hit(_)));
    assert!(matches!(c.lookup(&k, 61), Lookup::MustCompute));
}

#[test]
fn hit_returns_the_stored_rows() {
    let mut c = ReadCache::new();
    let k = key(3, 0, None);
    assert!(matches!(c.lookup(&k, 0), Lookup::MustCompute));
    let stored = rows(3);
    c.complete_ok(&k, stored, 10);
    match c.lookup(&k, 20) {
        Lookup::Hit(v) => {
            assert_eq!(v.len(), 3);
            assert_eq!(v[0].title, "ad0");
            assert_eq!(v[2].title, "ad2");
            assert_eq!(v[1].end_at, 1_900_000_000);
        },
        _ => panic!("expected a hit"),
    }
}

#[test]
fn failure_is_not_cached() {
    let mut c = ReadCache::new();
    let k = key(1, 0, None);
    assert!(matches!(c.lookup(&k, 0), Lookup::MustCompute));
    c.complete_err(&k);
    assert!(matches!(c.lookup(&k, 0), Lookup::MustCompute));
}

#[test]
fn weight_never_exceeds_capacity() {
    let mut c = ReadCache::with_config(5, 1000);
    for step in 0..40usize {
        let k = key(step % 7 + 1, step % 3, Some(step as i32));
        match c.lookup(&k, step as u64) {
            Lookup::MustCompute => {
                let n = (step * 13 + 5) % 6;
                c.complete_ok(&k, rows(n), step as u64);
            },
            _ => {},
        }
        assert!(c.weight() <= 5, "step {}", step);
    }
}

#[test]
fn oversized_result_is_not_admitted() {
    let mut c = ReadCache::with_config(5, 1000);
    let k = key(1, 0, None);
    assert!(matches!(c.lookup(&k, 0), Lookup::MustCompute));
    c.complete_ok(&k, rows(6), 0);
    assert_eq!(c.weight(), 0);
    assert!(matches!(c.lookup(&k, 1), Lookup::MustCompute));
}

#[test]
fn eviction_drops_oldest_ready_entry() {
    let mut c = ReadCache::with_config(5, 1000);
    let k1 = key(1, 0, None);
    let k2 = key(2, 0, None);
    let k3 = key(3, 0, None);
    assert!(matches!(c.lookup(&k1, 0), Lookup::MustCompute));
    c.complete_ok(&k1, rows(3), 0);
    assert!(matches!(c.lookup(&k2, 1), Lookup::MustCompute));
    c.complete_ok(&k2, rows(2), 1);
    assert_eq!(c.weight(), 5);
    assert!(matches!(c.lookup(&k3, 2), Lookup::MustCompute));
    c.complete_ok(&k3, rows(1), 2);
    assert!(c.weight() <= 5);
    assert!(matches!(c.lookup(&k2, 3), Lookup::Hit(_)));
    assert!(matches!(c.lookup(&k1, 3), Lookup::MustCompute));
}

#[test]
fn pending_marker_survives_eviction_pressure() {
    let mut c = ReadCache::with_config(3, 1000);
    let waiting = key(9, 9, None);
    assert!(matches!(c.lookup(&waiting, 0), Lookup::MustCompute));
    let k1 = key(1, 0, None);
    assert!(matches!(c.lookup(&k1, 0), Lookup::MustCompute));
    c.complete_ok(&k1, rows(3), 0);
    let k2 = key(2, 0, None);
    assert!(matches!(c.lookup(&k2, 1), Lookup::MustCompute));
    c.complete_ok(&k2, rows(3), 1);
    assert!(matches!(c.lookup(&waiting, 2), Lookup::Wait));
}
