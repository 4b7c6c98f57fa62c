use vibrant::cache::{CacheKey, CachePrefix};
use vibrant::db::{limited_query, Database};
use vibrant::hosts::{before, behind, content_type_of, extension_of, project_of_host, without};
use vibrant::identity::{resolve, Identity};
use vibrant::model::{PCreateProject, ProjectType};
use vibrant::outcome::StoreError;
use vibrant::text::signed_decimal;
use vibrant::weights::{sort_by_keys, weight};

fn some(name: &str) -> Option<String> {
    Some(name.to_string())
}

fn demo_store() -> Database {
    let mut db = Database::new();
    db.put_user(Identity { username: "alice".to_string(), capabilities: resolve(&Vec::new()) });
    let props = PCreateProject { name: "demo".to_string(), kind: ProjectType::StaticPackage };
    assert!(db.create_project(&props, some("alice"), 1).success);
    let stored = db.store_file_in_project(
        "demo".to_string(),
        "/index.html".to_string(),
        "aGVsbG8=".to_string(),
        some("alice"),
    );
    assert!(stored.success);
    db
}

#[test]
fn a_served_file_is_counted_once() {
    let mut db = demo_store();
    let served = db.serve_file_in_project("demo".to_string(), "".to_string(), None, 5);
    assert!(served.success);
    assert_eq!(served.message, "/index.html");
    assert_eq!(served.payload.unwrap(), b"hello".to_vec());
    let missed = db.serve_file_in_project("demo".to_string(), "/none".to_string(), None, 5);
    assert_eq!(missed.error, Some(StoreError::NotFound));
    let secret = db.serve_file_in_project("demo".to_string(), "/.secrets/x".to_string(), some("alice"), 5);
    assert_eq!(secret.error, Some(StoreError::Forbidden));
    for _ in 0..999_998 {
        db.incr_project_requests("demo".to_string(), 5);
    }
    let last = db.serve_file_in_project("demo".to_string(), "/".to_string(), None, 5);
    assert!(last.success);
    let over = db.serve_file_in_project("demo".to_string(), "/".to_string(), None, 5);
    assert_eq!(over.error, Some(StoreError::QuotaExceeded));
}

#[test]
fn the_score_is_read_from_the_secret_palette() {
    let mut db = demo_store();
    let none = db.get_project_score("demo".to_string());
    assert_eq!(none.error, Some(StoreError::NotFound));
    assert_eq!(none.message, "Unable to find file at given path!");
    db.store_file_in_project(
        "demo".to_string(),
        ".secrets/palette.toml".to_string(),
        "YT0x".to_string(),
        some("alice"),
    );
    let read = db.get_project_score("demo".to_string());
    assert!(read.success);
    assert_eq!(read.message, "/.secrets/palette.toml");
    assert_eq!(read.payload.unwrap(), b"a=1".to_vec());
    assert!(!db.get_project_score("none".to_string()).success);
}

#[test]
fn hosts_name_projects() {
    assert_eq!(project_of_host("demo.example.org", "example.org", "example"), some("demo"));
    assert_eq!(project_of_host("https://demo.example.org", "example.org", "example"), some("demo"));
    assert_eq!(project_of_host("http://demo.example.org", "example.org", "example"), some("demo"));
    assert_eq!(project_of_host("www.example.org", "example.org", "example"), None);
    assert_eq!(project_of_host("example.org", "example.org", "example"), None);
    assert_eq!(project_of_host("localhost", "example.org", "example"), None);
    assert_eq!(project_of_host(".example.org", "example.org", "example"), None);
    assert_eq!(project_of_host("", "example.org", "example"), None);
    assert_eq!(project_of_host("a.b.c.example.org", "example.org", "example"), some("a"));
    assert_eq!(before("a.b", '.'), "a");
    assert_eq!(before("ab", '.'), "ab");
    assert_eq!(before(".ab", '.'), "");
    assert_eq!(without("xhttp://yhttp://", "http://"), "xy");
    assert_eq!(without("aaa", "aa"), "a");
    assert_eq!(without("abc", ""), "abc");
    assert_eq!(without("ab", "abc"), "ab");
    assert_eq!(without("héhé", "é"), "hh");
}

#[test]
fn extensions_of_paths() {
    assert_eq!(extension_of("/index.html"), "html");
    assert_eq!(extension_of("/a.b/c.tar.gz"), "gz");
    assert_eq!(extension_of("/plain"), "/plain");
    assert_eq!(extension_of("/dot."), "");
    assert_eq!(extension_of(""), "");
    assert_eq!(behind("a/b/c", '/'), "c");
}

#[test]
fn content_types_go_by_the_extension() {
    assert_eq!(content_type_of("/index.html"), "text/html");
    assert_eq!(content_type_of("/style.CSS"), "text/css");
    assert_eq!(content_type_of("/a.b/pic.png"), "image/png");
    assert_eq!(content_type_of("/data.json"), "application/json");
    assert_eq!(content_type_of("/plain"), "application/octet-stream");
    assert_eq!(content_type_of("/dot."), "application/octet-stream");
    assert_eq!(content_type_of(""), "application/octet-stream");
}

#[test]
fn requests_of_a_project_are_counted() {
    let mut db = demo_store();
    assert_eq!(db.get_project_requests("demo".to_string()).payload, 0);
    db.serve_file_in_project("demo".to_string(), "/".to_string(), None, 5);
    db.serve_file_in_project("demo".to_string(), "/".to_string(), None, 5);
    db.serve_file_in_project("demo".to_string(), "/none".to_string(), None, 5);
    let counted = db.get_project_requests("demo".to_string());
    assert!(counted.success);
    assert_eq!(counted.message, "demo");
    assert_eq!(counted.payload, 2);
    let missing = db.get_project_requests("none".to_string());
    assert_eq!(missing.error, Some(StoreError::NotFound));
    assert_eq!(missing.payload, 0);
}

#[test]
fn cache_keys_as_text() {
    assert_eq!(CacheKey::Project("demo".to_string()).render(), "project:demo");
    assert_eq!(
        CacheKey::OwnerPage("alice".to_string(), 50).render(),
        "projects-by-owner:alice:offset50"
    );
    assert_eq!(
        CacheKey::OwnerPage("alice".to_string(), -3).render(),
        "projects-by-owner:alice:offset-3"
    );
    assert_eq!(
        CacheKey::Path("demo".to_string(), "/a.txt".to_string()).render(),
        "project:demo:path:/a.txt"
    );
    assert_eq!(CacheKey::Requests("demo".to_string()).render(), "billing:requests:demo");
    assert_eq!(CacheKey::Favorites("demo".to_string()).render(), "social:project-favorites:demo");
    assert_eq!(CachePrefix::OwnerPages("alice".to_string()).render(), "projects-by-owner:alice:*");
    assert_eq!(CachePrefix::ProjectPaths("demo".to_string()).render(), "project:demo:*");
    assert_eq!(signed_decimal(i32::MIN), "-2147483648");
    assert_eq!(signed_decimal(i32::MAX), "2147483647");
    assert_eq!(signed_decimal(0), "0");
}

#[test]
fn queries_are_held_to_a_thousand_rows() {
    assert_eq!(limited_query(String::new()), None);
    assert_eq!(
        limited_query("SELECT * FROM \"Projects\"".to_string()),
        some("SELECT * FROM \"Projects\" LIMIT 1000")
    );
    assert_eq!(limited_query("SELECT 1 LIMIT 5".to_string()), some("SELECT 1 LIMIT 5"));
    assert_eq!(limited_query("select 1 limit 5".to_string()), some("select 1 limit 5 LIMIT 1000"));
}

#[test]
fn columns_are_sorted_by_weight() {
    assert_eq!(weight(""), 0);
    assert_eq!(weight("a"), 98);
    assert_eq!(weight("id"), 107);
    assert_eq!(weight("é"), 233 + 2);
    let sorted = sort_by_keys(vec![
        ("timestamp".to_string(), 1),
        ("id".to_string(), 2),
        ("name".to_string(), 3),
        ("b".to_string(), 4),
        ("a".to_string(), 5),
        ("c".to_string(), 6),
        ("".to_string(), 7),
        ("`".to_string(), 8),
    ]);
    let keys: Vec<(&str, i32)> = sorted.iter().map(|(k, v)| (k.as_str(), *v)).collect();
    assert_eq!(
        keys,
        vec![
            ("", 7),
            ("`", 8),
            ("a", 5),
            ("b", 4),
            ("c", 6),
            ("id", 2),
            ("name", 3),
            ("timestamp", 1)
        ]
    );
    let ties = sort_by_keys(vec![("ab".to_string(), 1), ("b".to_string(), 2), ("ab".to_string(), 3)]);
    let keys: Vec<(&str, i32)> = ties.iter().map(|(k, v)| (k.as_str(), *v)).collect();
    assert_eq!(keys, vec![("ab", 1), ("b", 2), ("ab", 3)]);
    let empty: Vec<(String, u8)> = sort_by_keys(Vec::new());
    assert!(empty.is_empty());
}
