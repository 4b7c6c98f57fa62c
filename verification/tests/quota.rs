use vibrant::cache::{Cache, CacheKey, CachePrefix, CacheValue};
use vibrant::db::Database;
use vibrant::identity::{resolve, Identity};
use vibrant::model::{PCreateProject, ProjectRequestLimit, ProjectType};
use vibrant::outcome::StoreError;
use vibrant::quota::{
    ceiling, period_elapsed, within_quota, BILLING_PERIOD_MS, DEFAULT_CEILING, ENTERPRISE_CEILING,
};

fn user(name: &str, permissions: &[&str]) -> Identity {
    let list: Vec<String> = permissions.iter().map(|p| p.to_string()).collect();
    Identity { username: name.to_string(), capabilities: resolve(&list) }
}

fn some(name: &str) -> Option<String> {
    Some(name.to_string())
}

fn store_of(owner_permissions: &[&str]) -> Database {
    let mut db = Database::new();
    db.put_user(user("alice", owner_permissions));
    let props = PCreateProject { name: "demo".to_string(), kind: ProjectType::StaticPackage };
    assert!(db.create_project(&props, some("alice"), 1_000).success);
    let stored = db.store_file_in_project(
        "demo".to_string(),
        "/index.html".to_string(),
        "aGVsbG8=".to_string(),
        some("alice"),
    );
    assert!(stored.success);
    db
}

fn read(db: &mut Database) -> vibrant::outcome::DefaultReturn<Option<Vec<u8>>> {
    db.get_file_in_project("demo".to_string(), "/".to_string(), None, false, false)
}

#[test]
fn ceilings_of_the_tiers() {
    assert_eq!(DEFAULT_CEILING, 1_000_000);
    assert_eq!(ENTERPRISE_CEILING, 100_000_000);
    assert_eq!(ceiling(ProjectRequestLimit::Default), Some(1_000_000));
    assert_eq!(ceiling(ProjectRequestLimit::Enterprise), Some(100_000_000));
    assert_eq!(ceiling(ProjectRequestLimit::Disabled), None);
    assert!(within_quota(ProjectRequestLimit::Default, 999_999));
    assert!(!within_quota(ProjectRequestLimit::Default, 1_000_000));
    assert!(within_quota(ProjectRequestLimit::Enterprise, 99_999_999));
    assert!(!within_quota(ProjectRequestLimit::Enterprise, 100_000_000));
    assert!(within_quota(ProjectRequestLimit::Disabled, i64::MAX));
}

#[test]
fn billing_period_is_30_4375_days() {
    assert_eq!(BILLING_PERIOD_MS, 2_629_800_000);
    assert!(!period_elapsed(1_000, 1_000 + 2_629_799_999));
    assert!(period_elapsed(1_000, 1_000 + 2_629_800_000));
    assert!(!period_elapsed(5_000, 1_000));
    assert!(period_elapsed(0, u128::MAX));
}

#[test]
fn the_millionth_read_is_served_and_the_next_is_not() {
    let mut db = store_of(&[]);
    for _ in 0..999_999 {
        assert!(db.incr_project_requests("demo".to_string(), 2_000));
    }
    let millionth = read(&mut db);
    assert!(millionth.success);
    assert_eq!(millionth.payload.unwrap(), b"hello".to_vec());
    assert!(db.incr_project_requests("demo".to_string(), 2_000));
    let next = read(&mut db);
    assert!(!next.success);
    assert_eq!(next.error, Some(StoreError::QuotaExceeded));
    assert_eq!(next.message, "Limit exceeded!");
    assert!(next.payload.is_none());
}

#[test]
fn quota_goes_by_the_owner_and_not_by_the_reader() {
    let mut db = store_of(&["VIB:RequestLimit:Disabled"]);
    db.put_user(user("bob", &[]));
    for _ in 0..1_000_001 {
        db.incr_project_requests("demo".to_string(), 2_000);
    }
    let r = db.get_file_in_project("demo".to_string(), "/".to_string(), some("bob"), false, false);
    assert!(r.success);
    db.put_user(user("alice", &["VIB:RequestLimit:Enterprise"]));
    assert!(read(&mut db).success);
    db.put_user(user("alice", &[]));
    assert_eq!(read(&mut db).error, Some(StoreError::QuotaExceeded));
}

#[test]
fn counting_a_request_of_a_missing_project() {
    let mut db = Database::new();
    assert!(!db.incr_project_requests("none".to_string(), 1));
}

#[test]
fn rollover_resets_the_period_and_keeps_the_count() {
    let mut db = store_of(&[]);
    assert!(db.incr_project_requests("demo".to_string(), 1_000 + BILLING_PERIOD_MS - 1));
    assert_eq!(db.get_project_by_id("demo".to_string()).payload.unwrap().timestamp, 1_000);
    let later = 1_000 + BILLING_PERIOD_MS;
    assert!(db.incr_project_requests("demo".to_string(), later));
    assert_eq!(db.get_project_by_id("demo".to_string()).payload.unwrap().timestamp, later);
    assert!(db.incr_project_requests("demo".to_string(), later + 5));
    assert_eq!(db.get_project_by_id("demo".to_string()).payload.unwrap().timestamp, later);
}

#[test]
fn cache_set_get_remove() {
    let mut cache = Cache::new();
    let key = || CacheKey::Path("demo".to_string(), "/a".to_string());
    assert!(cache.get(&key()).is_none());
    cache.set(key(), CacheValue::Content("one".to_string()));
    cache.set(CacheKey::Path("demo".to_string(), "/b".to_string()), CacheValue::Content("b".to_string()));
    cache.update(key(), CacheValue::Content("two".to_string()));
    match cache.get(&key()) {
        Some(CacheValue::Content(c)) => assert_eq!(c, "two"),
        _ => panic!("no content"),
    }
    cache.remove(&key());
    assert!(cache.get(&key()).is_none());
    assert!(cache.get(&CacheKey::Path("demo".to_string(), "/b".to_string())).is_some());
    assert!(cache.get(&CacheKey::Project("demo".to_string())).is_none());
}

#[test]
fn cache_sweeps_a_family_of_keys() {
    let mut cache = Cache::new();
    cache.set(CacheKey::OwnerPage("alice".to_string(), 0), CacheValue::Page(Vec::new()));
    cache.set(CacheKey::OwnerPage("alice".to_string(), 50), CacheValue::Page(Vec::new()));
    cache.set(CacheKey::OwnerPage("bob".to_string(), 0), CacheValue::Page(Vec::new()));
    cache.set(CacheKey::Path("alice".to_string(), "/a".to_string()), CacheValue::Content(String::new()));
    cache.set(CacheKey::Path("demo".to_string(), "/a".to_string()), CacheValue::Content(String::new()));
    cache.set(CacheKey::Requests("demo".to_string()), CacheValue::Count(3));
    cache.remove_starting_with(&CachePrefix::OwnerPages("alice".to_string()));
    assert!(cache.get(&CacheKey::OwnerPage("alice".to_string(), 0)).is_none());
    assert!(cache.get(&CacheKey::OwnerPage("alice".to_string(), 50)).is_none());
    assert!(cache.get(&CacheKey::OwnerPage("bob".to_string(), 0)).is_some());
    assert!(cache.get(&CacheKey::Path("alice".to_string(), "/a".to_string())).is_some());
    cache.remove_starting_with(&CachePrefix::ProjectPaths("demo".to_string()));
    assert!(cache.get(&CacheKey::Path("demo".to_string(), "/a".to_string())).is_none());
    assert!(cache.get(&CacheKey::Path("alice".to_string(), "/a".to_string())).is_some());
    assert_eq!(cache.count(&CacheKey::Requests("demo".to_string())), 3);
}

#[test]
fn cache_counters() {
    let mut cache = Cache::new();
    let key = || CacheKey::Requests("demo".to_string());
    assert_eq!(cache.count(&key()), 0);
    cache.incr(key());
    assert_eq!(cache.count(&key()), 1);
    cache.incr(key());
    cache.decr(key());
    cache.decr(key());
    cache.decr(key());
    assert_eq!(cache.count(&key()), -1);
    cache.set(key(), CacheValue::Count(i64::MAX));
    cache.incr(key());
    assert_eq!(cache.count(&key()), i64::MAX);
    cache.set(key(), CacheValue::Count(i64::MIN));
    cache.decr(key());
    assert_eq!(cache.count(&key()), i64::MIN);
    let other = || CacheKey::Favorites("fresh".to_string());
    cache.decr(other());
    assert_eq!(cache.count(&other()), -1);
    cache.set(other(), CacheValue::Content("x".to_string()));
    cache.incr(other());
    assert_eq!(cache.count(&other()), 0);
    assert!(matches!(cache.get(&other()), Some(CacheValue::Content(_))));
}
