use base64::Engine;
use vibrant::codec::{decode, encode, serve_decoded};
use vibrant::db::Database;
use vibrant::identity::{resolve, Identity};
use vibrant::model::{PCreateProject, ProjectFilePrivacy, ProjectMetadata, ProjectType};
use vibrant::outcome::StoreError;
use vibrant::paths::{is_protected, rooted, served_path};

fn user(name: &str, permissions: &[&str]) -> Identity {
    let list: Vec<String> = permissions.iter().map(|p| p.to_string()).collect();
    Identity { username: name.to_string(), capabilities: resolve(&list) }
}

fn some(name: &str) -> Option<String> {
    Some(name.to_string())
}

fn demo_store() -> Database {
    let mut db = Database::new();
    db.put_user(user("alice", &[]));
    db.put_user(user("bob", &[]));
    db.put_user(user("root", &["VIB:Admin"]));
    let props = PCreateProject { name: "demo".to_string(), kind: ProjectType::StaticPackage };
    assert!(db.create_project(&props, some("alice"), 1).success);
    db
}

fn store(db: &mut Database, path: &str, content: &str) {
    let r = db.store_file_in_project(
        "demo".to_string(),
        path.to_string(),
        content.to_string(),
        some("alice"),
    );
    assert!(r.success);
}

fn set_privacy(db: &mut Database, privacy: ProjectFilePrivacy, clean_paths: bool) {
    let r = db.edit_project_metadata_by_name(
        "demo".to_string(),
        ProjectMetadata { script: String::new(), file_privacy: privacy, clean_paths },
        some("alice"),
    );
    assert!(r.success);
}

#[test]
fn scenario_store_index_and_read_root() {
    let mut db = demo_store();
    let stored = db.store_file_in_project(
        "demo".to_string(),
        "/index.html".to_string(),
        "aGVsbG8=".to_string(),
        some("alice"),
    );
    assert!(stored.success);
    assert_eq!(stored.message, "File inserted");
    assert_eq!(stored.payload.unwrap(), "/index.html");
    let read = db.get_file_in_project("demo".to_string(), "/".to_string(), some("alice"), false, false);
    assert!(read.success);
    assert_eq!(read.message, "/index.html");
    assert_eq!(read.payload.unwrap(), b"hello".to_vec());
}

#[test]
fn store_then_read_round_trips_bytes() {
    let mut db = demo_store();
    let bytes: Vec<u8> = (0..=255u8).collect();
    let text = base64::engine::general_purpose::STANDARD.encode(&bytes);
    store(&mut db, "blob.bin", &text);
    let first = db.get_file_in_project("demo".to_string(), "blob.bin".to_string(), None, false, false);
    assert_eq!(first.payload.unwrap(), bytes);
    let second = db.get_file_in_project("demo".to_string(), "/blob.bin".to_string(), None, false, false);
    assert_eq!(second.message, "/blob.bin");
    assert_eq!(second.payload.unwrap(), bytes);
}

#[test]
fn encode_is_that_of_standard_base64() {
    assert_eq!(encode(b"hello"), Some("aGVsbG8=".to_string()));
    assert_eq!(encode(b""), Some(String::new()));
    assert_eq!(encode(&[0xfb, 0xff]), Some("+/8=".to_string()));
    let bytes: Vec<u8> = (0..=255u8).rev().collect();
    assert_eq!(decode(&encode(&bytes).unwrap()), Some(bytes));
}

#[test]
fn encoded_content_comes_back_byte_for_byte() {
    let mut db = demo_store();
    let bytes = vec![0u8, 159, 146, 150, 255];
    store(&mut db, "/raw", &encode(&bytes).unwrap());
    let read = db.get_file_in_project("demo".to_string(), "raw".to_string(), None, false, false);
    assert_eq!(read.payload.unwrap(), bytes);
}

#[test]
fn decode_is_that_of_standard_base64() {
    assert_eq!(decode("aGVsbG8="), Some(b"hello".to_vec()));
    assert_eq!(decode(""), Some(Vec::new()));
    assert_eq!(decode("aGVsbG8"), None);
    assert_eq!(decode("not base64!"), None);
    let served = serve_decoded("/a".to_string(), Some(vec![1, 2, 3]));
    assert!(served.success);
    assert_eq!(served.message, "/a");
    assert_eq!(served.payload, Some(vec![1, 2, 3]));
    let refused = serve_decoded("/a".to_string(), None);
    assert!(!refused.success);
    assert_eq!(refused.error, Some(StoreError::BackingStoreError));
    assert_eq!(refused.payload, None);
}

#[test]
fn corrupt_content_is_a_backing_store_error() {
    let mut db = demo_store();
    store(&mut db, "/bad", "***");
    let read = db.get_file_in_project("demo".to_string(), "/bad".to_string(), None, false, false);
    assert!(!read.success);
    assert_eq!(read.error, Some(StoreError::BackingStoreError));
    assert_eq!(read.message, "Stored file content is not valid base64");
    assert!(read.payload.is_none());
}

#[test]
fn update_is_seen_by_the_next_read() {
    let mut db = demo_store();
    store(&mut db, "/a.txt", "b2xk");
    let before = db.get_file_in_project("demo".to_string(), "/a.txt".to_string(), None, false, false);
    assert_eq!(before.payload.unwrap(), b"old".to_vec());
    let updated = db.update_file_in_project(
        "demo".to_string(),
        "a.txt".to_string(),
        "bmV3".to_string(),
        some("alice"),
    );
    assert!(updated.success);
    assert_eq!(updated.message, "File updated");
    assert_eq!(updated.payload.unwrap(), "/a.txt");
    let after = db.get_file_in_project("demo".to_string(), "/a.txt".to_string(), None, false, false);
    assert_eq!(after.payload.unwrap(), b"new".to_vec());
    assert_eq!(db.get_project_files("demo".to_string(), None, false).payload.len(), 1);
}

#[test]
fn update_of_a_missing_file_is_not_found() {
    let mut db = demo_store();
    let updated = db.update_file_in_project(
        "demo".to_string(),
        "/nothing".to_string(),
        "bmV3".to_string(),
        some("alice"),
    );
    assert!(!updated.success);
    assert_eq!(updated.error, Some(StoreError::NotFound));
    assert_eq!(updated.message, "Unable to find file at given path!");
    let read = db.get_file_in_project("demo".to_string(), "/nothing".to_string(), None, false, false);
    assert!(!read.success);
}

#[test]
fn store_replaces_what_stood_under_the_path() {
    let mut db = demo_store();
    store(&mut db, "/a.txt", "b2xk");
    store(&mut db, "a.txt", "bmV3");
    let files = db.get_project_files("demo".to_string(), None, false);
    assert_eq!(files.payload, vec!["/a.txt".to_string()]);
    let read = db.get_file_in_project("demo".to_string(), "/a.txt".to_string(), None, false, false);
    assert_eq!(read.payload.unwrap(), b"new".to_vec());
}

#[test]
fn writes_need_the_owner_or_an_administrator() {
    let mut db = demo_store();
    let content = || "YQ==".to_string();
    let missing = db.store_file_in_project("none".to_string(), "/a".to_string(), content(), some("alice"));
    assert_eq!(missing.error, Some(StoreError::NotFound));
    assert_eq!(missing.message, "Project does not exist!");
    let anonymous = db.store_file_in_project("demo".to_string(), "/a".to_string(), content(), None);
    assert_eq!(anonymous.message, "An account is required to do this");
    let stranger = db.store_file_in_project("demo".to_string(), "/a".to_string(), content(), some("bob"));
    assert_eq!(stranger.error, Some(StoreError::Forbidden));
    assert!(db.get_project_files("demo".to_string(), None, false).payload.is_empty());
    let admin = db.store_file_in_project("demo".to_string(), "/a".to_string(), content(), some("root"));
    assert!(admin.success);
    let refused_update =
        db.update_file_in_project("demo".to_string(), "/a".to_string(), content(), some("bob"));
    assert_eq!(refused_update.error, Some(StoreError::Forbidden));
    let refused_delete = db.delete_file_in_project("demo".to_string(), "/a".to_string(), some("bob"));
    assert_eq!(refused_delete.error, Some(StoreError::Forbidden));
    let refused_move =
        db.move_file_in_project("demo".to_string(), "/a".to_string(), "/b".to_string(), some("bob"));
    assert_eq!(refused_move.error, Some(StoreError::Forbidden));
    assert_eq!(db.get_project_files("demo".to_string(), None, false).payload, vec!["/a".to_string()]);
}

#[test]
fn delete_file_removes_row_and_cache_entry() {
    let mut db = demo_store();
    store(&mut db, "/a", "YQ==");
    assert!(db.get_file_in_project("demo".to_string(), "/a".to_string(), None, false, false).success);
    let deleted = db.delete_file_in_project("demo".to_string(), "/a".to_string(), some("alice"));
    assert!(deleted.success);
    assert_eq!(deleted.message, "File deleted");
    assert_eq!(deleted.payload.unwrap(), "/a");
    let read = db.get_file_in_project("demo".to_string(), "/a".to_string(), None, false, false);
    assert_eq!(read.error, Some(StoreError::NotFound));
    assert_eq!(read.message, "Unable to find file at given path!");
    let again = db.delete_file_in_project("demo".to_string(), "/a".to_string(), some("alice"));
    assert!(again.success);
}

#[test]
fn move_file_leaves_nothing_under_the_old_path() {
    let mut db = demo_store();
    store(&mut db, "/a", "YQ==");
    store(&mut db, "/b", "Yg==");
    assert!(db.get_file_in_project("demo".to_string(), "/a".to_string(), None, false, false).success);
    assert!(db.get_file_in_project("demo".to_string(), "/b".to_string(), None, false, false).success);
    let moved = db.move_file_in_project("demo".to_string(), "a".to_string(), "c".to_string(), some("alice"));
    assert!(moved.success);
    assert_eq!(moved.message, "File moved");
    assert_eq!(moved.payload.unwrap(), "/a");
    assert!(!db.get_file_in_project("demo".to_string(), "/a".to_string(), None, false, false).success);
    let at_c = db.get_file_in_project("demo".to_string(), "/c".to_string(), None, false, false);
    assert_eq!(at_c.payload.unwrap(), b"a".to_vec());
    let onto = db.move_file_in_project("demo".to_string(), "/c".to_string(), "/b".to_string(), some("alice"));
    assert!(onto.success);
    let at_b = db.get_file_in_project("demo".to_string(), "/b".to_string(), None, false, false);
    assert_eq!(at_b.payload.unwrap(), b"a".to_vec());
    assert_eq!(db.get_project_files("demo".to_string(), None, false).payload, vec!["/b".to_string()]);
    let nothing = db.move_file_in_project("demo".to_string(), "/zz".to_string(), "/b".to_string(), some("alice"));
    assert!(nothing.success);
    let same = db.move_file_in_project("demo".to_string(), "/b".to_string(), "b".to_string(), some("alice"));
    assert!(same.success);
    let still = db.get_file_in_project("demo".to_string(), "/b".to_string(), None, false, false);
    assert_eq!(still.payload.unwrap(), b"a".to_vec());
}

#[test]
fn private_files_are_for_the_owner_alone() {
    let mut db = demo_store();
    store(&mut db, "/a", "YQ==");
    set_privacy(&mut db, ProjectFilePrivacy::Private, false);
    let read = |db: &mut Database, who: Option<String>, bypass: bool| {
        db.get_file_in_project("demo".to_string(), "/a".to_string(), who, bypass, false)
    };
    let anonymous = read(&mut db, None, false);
    assert_eq!(anonymous.error, Some(StoreError::Forbidden));
    assert_eq!(anonymous.message, "Not allowed to view project files!");
    assert!(!read(&mut db, some("bob"), false).success);
    assert!(!read(&mut db, some("root"), false).success);
    assert!(read(&mut db, some("alice"), false).success);
    assert!(read(&mut db, None, true).success);
    set_privacy(&mut db, ProjectFilePrivacy::Confidential, false);
    assert!(read(&mut db, None, false).success);
    assert!(read(&mut db, some("bob"), false).success);
}

#[test]
fn listing_needs_public_files_or_the_owner() {
    let mut db = demo_store();
    store(&mut db, "/a", "YQ==");
    store(&mut db, "/b", "Yg==");
    let list = |db: &mut Database, who: Option<String>, bypass: bool| {
        db.get_project_files("demo".to_string(), who, bypass)
    };
    let open = list(&mut db, None, false);
    assert!(open.success);
    assert_eq!(open.message, "Files exist");
    assert_eq!(open.payload, vec!["/a".to_string(), "/b".to_string()]);
    set_privacy(&mut db, ProjectFilePrivacy::Confidential, false);
    let shut = list(&mut db, None, false);
    assert_eq!(shut.error, Some(StoreError::Forbidden));
    assert_eq!(shut.message, "Not allowed to view project file listing!");
    assert!(shut.payload.is_empty());
    assert!(!list(&mut db, some("bob"), false).success);
    assert_eq!(list(&mut db, some("alice"), false).payload.len(), 2);
    assert_eq!(list(&mut db, None, true).payload.len(), 2);
    set_privacy(&mut db, ProjectFilePrivacy::Private, false);
    assert!(!list(&mut db, some("bob"), false).success);
    let missing = db.get_project_files("none".to_string(), None, true);
    assert_eq!(missing.error, Some(StoreError::NotFound));
}

#[test]
fn secrets_need_a_protected_read() {
    let mut db = demo_store();
    store(&mut db, "/.secrets/palette.toml", "YQ==");
    let open = db.get_file_in_project(
        "demo".to_string(),
        "/.secrets/palette.toml".to_string(),
        some("alice"),
        false,
        false,
    );
    assert_eq!(open.error, Some(StoreError::Forbidden));
    assert_eq!(open.message, "This path requires protected read access.");
    let bypassed = db.get_file_in_project(
        "demo".to_string(),
        "/.secrets/palette.toml".to_string(),
        None,
        true,
        false,
    );
    assert!(!bypassed.success);
    let protected = db.get_file_in_project(
        "demo".to_string(),
        "/.secrets/palette.toml".to_string(),
        None,
        false,
        true,
    );
    assert_eq!(protected.payload.unwrap(), b"a".to_vec());
    assert!(is_protected("a/.secrets"));
    assert!(is_protected(".secrets"));
    assert!(!is_protected("/secrets/.secret"));
}

#[test]
fn paths_are_normalized() {
    assert_eq!(rooted("a/b"), "/a/b");
    assert_eq!(rooted("/a/b"), "/a/b");
    assert_eq!(rooted(""), "/");
    assert_eq!(served_path("/", false), "/index.html");
    assert_eq!(served_path("", false), "/index.html");
    assert_eq!(served_path("", true), "/index.html");
    assert_eq!(served_path("about", false), "/about");
    assert_eq!(served_path("about", true), "/about.html");
    assert_eq!(served_path("/about", true), "/about.html");
    assert_eq!(served_path("/style.css", true), "/style.css");
    assert_eq!(served_path("/v1.2/page", true), "/v1.2/page");
    assert_eq!(served_path("é", true), "/é.html");
}

#[test]
fn clean_paths_read_the_page_of_that_name() {
    let mut db = demo_store();
    store(&mut db, "/about.html", "YQ==");
    let plain = db.get_file_in_project("demo".to_string(), "/about".to_string(), None, false, false);
    assert!(!plain.success);
    set_privacy(&mut db, ProjectFilePrivacy::Public, true);
    let clean = db.get_file_in_project("demo".to_string(), "/about".to_string(), None, false, false);
    assert_eq!(clean.message, "/about.html");
    assert_eq!(clean.payload.unwrap(), b"a".to_vec());
}

#[test]
fn read_of_a_missing_project_or_owner() {
    let mut db = Database::new();
    let none = db.get_file_in_project("none".to_string(), "/".to_string(), None, false, false);
    assert_eq!(none.error, Some(StoreError::NotFound));
    assert_eq!(none.message, "Project does not exist!");
    let mut db = demo_store();
    store(&mut db, "/a", "YQ==");
    let mut with_edit_owner = user("alice", &["VIB:Actions:EditOwner"]);
    with_edit_owner.username = "alice".to_string();
    db.put_user(with_edit_owner);
    let moved = db.edit_fields_by_name(
        "demo".to_string(),
        vibrant::model::PEditFieldsByName { name: String::new(), owner: "ghost".to_string() },
        some("alice"),
        false,
    );
    assert!(moved.success);
    let read = db.get_file_in_project("demo".to_string(), "/a".to_string(), None, false, false);
    assert_eq!(read.error, Some(StoreError::Forbidden));
    assert_eq!(read.message, "Project owner is invalid!");
}
