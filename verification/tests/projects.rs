use vibrant::db::Database;
use vibrant::identity::{resolve, Identity, ProjectAllowance};
use vibrant::model::{
    PCreateProject, PEditFieldsByName, ProjectFilePrivacy, ProjectMetadata, ProjectPrivateMetadata,
    ProjectRequestLimit, ProjectType,
};
use vibrant::names::valid_name;
use vibrant::outcome::StoreError;

fn user(name: &str, permissions: &[&str]) -> Identity {
    let list: Vec<String> = permissions.iter().map(|p| p.to_string()).collect();
    Identity { username: name.to_string(), capabilities: resolve(&list) }
}

fn props(name: &str) -> PCreateProject {
    PCreateProject { name: name.to_string(), kind: ProjectType::StaticPackage }
}

fn store_with(users: &[(&str, &[&str])]) -> Database {
    let mut db = Database::new();
    for (name, permissions) in users {
        db.put_user(user(name, permissions));
    }
    db
}

fn some(name: &str) -> Option<String> {
    Some(name.to_string())
}

#[test]
fn create_then_get_returns_the_project() {
    let mut db = store_with(&[("alice", &[])]);
    let made = db.create_project(&props("demo"), some("alice"), 1_700_000_000_000);
    assert!(made.success);
    assert_eq!(made.message, "Project created");
    assert_eq!(made.error, None);
    assert_eq!(made.payload.unwrap().name, "demo");
    let got = db.get_project_by_id("demo".to_string());
    assert!(got.success);
    assert_eq!(got.message, "Project exists");
    let project = got.payload.unwrap();
    assert_eq!(project.name, "demo");
    assert_eq!(project.owner, "alice");
    assert_eq!(project.timestamp, 1_700_000_000_000);
    assert_eq!(project.private_metadata.created, 1_700_000_000_000);
    assert_eq!(project.private_metadata.kind, ProjectType::StaticPackage);
    assert_eq!(project.private_metadata.limit, ProjectRequestLimit::Default);
    assert_eq!(project.private_metadata.image, "vibrant_deploy_kit:latest");
    assert_eq!(project.private_metadata.cid, None);
    assert_eq!(project.metadata.file_privacy, ProjectFilePrivacy::Public);
    assert!(!project.metadata.clean_paths);
    assert_eq!(project.metadata.script, "");
}

#[test]
fn get_is_answered_from_the_cache_the_second_time() {
    let mut db = store_with(&[("alice", &[])]);
    db.create_project(&props("demo"), some("alice"), 5);
    let first = db.get_project_by_id("demo".to_string()).payload.unwrap();
    let second = db.get_project_by_id("demo".to_string()).payload.unwrap();
    assert_eq!(first.owner, second.owner);
    assert_eq!(first.timestamp, second.timestamp);
}

#[test]
fn get_of_a_missing_project_is_not_found() {
    let mut db = store_with(&[]);
    let got = db.get_project_by_id("nothing".to_string());
    assert!(!got.success);
    assert_eq!(got.error, Some(StoreError::NotFound));
    assert_eq!(got.message, "Project does not exist!");
    assert!(got.payload.is_none());
}

#[test]
fn create_refuses_an_anonymous_caller() {
    let mut db = store_with(&[("alice", &[])]);
    let made = db.create_project(&props("demo"), None, 1);
    assert!(!made.success);
    assert_eq!(made.error, Some(StoreError::Forbidden));
    assert_eq!(made.message, "You must have an account to do this.");
}

#[test]
fn create_refuses_invalid_names() {
    let mut db = store_with(&[("alice", &[])]);
    let long = "a".repeat(501);
    for name in ["a", "", "has space", "dot.ted", "ünï", "dashboard", "api", "social", long.as_str()] {
        let made = db.create_project(&props(name), some("alice"), 1);
        assert!(!made.success, "{}", name);
        assert_eq!(made.error, Some(StoreError::InvalidInput));
        assert_eq!(made.message, "Name is invalid");
    }
}

#[test]
fn name_rule_accepts_the_charset_and_the_length_bounds() {
    assert!(valid_name("ab"));
    assert!(valid_name("A-z_09"));
    assert!(valid_name(&"x".repeat(500)));
    assert!(!valid_name(&"x".repeat(501)));
    assert!(!valid_name("x"));
    assert!(!valid_name("a/b"));
    assert!(!valid_name("a\nb"));
    assert!(!valid_name("api"));
    assert!(valid_name("apis"));
}

#[test]
fn create_refuses_an_unknown_user() {
    let mut db = store_with(&[]);
    let made = db.create_project(&props("demo"), some("ghost"), 1);
    assert!(!made.success);
    assert_eq!(made.message, "User is invalid!");
}

#[test]
fn create_refuses_a_name_that_holds_files() {
    let mut db = store_with(&[("alice", &[]), ("bob", &[])]);
    db.create_project(&props("demo"), some("alice"), 1);
    let stored = db.store_file_in_project(
        "demo".to_string(),
        "/index.html".to_string(),
        "aGVsbG8=".to_string(),
        some("alice"),
    );
    assert!(stored.success);
    let again = db.create_project(&props("demo"), some("bob"), 2);
    assert!(!again.success);
    assert_eq!(again.error, Some(StoreError::AlreadyExists));
    assert_eq!(again.message, "A project with this name already exists!");
    assert_eq!(db.get_project_by_id("demo".to_string()).payload.unwrap().owner, "alice");
}

#[test]
fn create_reclaims_a_project_without_files() {
    let mut db = store_with(&[("alice", &[]), ("bob", &[])]);
    db.create_project(&props("demo"), some("alice"), 1);
    let again = db.create_project(&props("demo"), some("bob"), 2);
    assert!(again.success);
    assert_eq!(again.message, "Project updated!");
    assert_eq!(again.payload.unwrap().name, "demo");
    let project = db.get_project_by_id("demo".to_string()).payload.unwrap();
    assert_eq!(project.owner, "bob");
    assert_eq!(project.timestamp, 1);
    let of_alice = db.get_projects_by_owner_limited("alice".to_string(), None).payload.unwrap();
    assert!(of_alice.is_empty());
    let of_bob = db.get_projects_by_owner_limited("bob".to_string(), None).payload.unwrap();
    assert_eq!(of_bob.len(), 1);
}

#[test]
fn project_allowance_is_ten_by_default() {
    let mut db = store_with(&[("alice", &[])]);
    for i in 0..10 {
        let made = db.create_project(&props(&format!("p{:02}", i)), some("alice"), i);
        assert!(made.success);
    }
    let over = db.create_project(&props("p10"), some("alice"), 10);
    assert!(!over.success);
    assert_eq!(over.error, Some(StoreError::QuotaExceeded));
    assert_eq!(
        over.message,
        "You have reached the maximum number of projects allowed for your account level."
    );
}

#[test]
fn project_allowance_of_twenty_five_and_unlimited() {
    let mut db = store_with(&[
        ("mid", &["VIB:MaxProjects:25"]),
        ("big", &["VIB:MaxProjects:Disabled", "VIB:MaxProjects:10"]),
    ]);
    for i in 0..25 {
        assert!(db.create_project(&props(&format!("m{:02}", i)), some("mid"), i).success);
    }
    assert!(!db.create_project(&props("m25"), some("mid"), 25).success);
    for i in 0..30 {
        assert!(db.create_project(&props(&format!("b{:02}", i)), some("big"), i).success);
    }
}

#[test]
fn permissions_resolve_to_capabilities() {
    let none = resolve(&Vec::new());
    assert!(!none.admin);
    assert!(!none.edit_owner);
    assert_eq!(none.allowance, ProjectAllowance::Ten);
    assert_eq!(none.request_limit, ProjectRequestLimit::Default);
    let both = user("x", &["VIB:MaxProjects:10", "VIB:MaxProjects:25"]).capabilities;
    assert_eq!(both.allowance, ProjectAllowance::Ten);
    let mid = user("x", &["VIB:MaxProjects:25"]).capabilities;
    assert_eq!(mid.allowance, ProjectAllowance::TwentyFive);
    let all = user(
        "x",
        &[
            "VIB:Admin",
            "VIB:Actions:EditOwner",
            "VIB:MaxProjects:Disabled",
            "VIB:RequestLimit:Enterprise",
        ],
    )
    .capabilities;
    assert!(all.admin);
    assert!(all.edit_owner);
    assert_eq!(all.allowance, ProjectAllowance::Unlimited);
    assert_eq!(all.request_limit, ProjectRequestLimit::Enterprise);
    let off = user("x", &["VIB:RequestLimit:Enterprise", "VIB:RequestLimit:Disabled"]).capabilities;
    assert_eq!(off.request_limit, ProjectRequestLimit::Disabled);
    assert!(ProjectAllowance::Ten.admits(9));
    assert!(!ProjectAllowance::Ten.admits(10));
    assert!(ProjectAllowance::TwentyFive.admits(24));
    assert!(!ProjectAllowance::TwentyFive.admits(25));
    assert!(ProjectAllowance::Unlimited.admits(usize::MAX));
}

#[test]
fn listing_is_paged_by_fifty_and_newest_first() {
    let mut db = store_with(&[("big", &["VIB:MaxProjects:Disabled"]), ("alice", &[])]);
    for i in 0..60u128 {
        assert!(db.create_project(&props(&format!("n{:02}", i)), some("big"), i).success);
    }
    db.create_project(&props("other"), some("alice"), 1000);
    let first = db.get_projects_by_owner_limited("big".to_string(), None);
    assert!(first.success);
    assert_eq!(first.message, "big");
    let first = first.payload.unwrap();
    assert_eq!(first.len(), 50);
    assert_eq!(first[0].name, "n59");
    assert_eq!(first[49].name, "n10");
    let rest = db.get_projects_by_owner_limited("big".to_string(), Some(50)).payload.unwrap();
    assert_eq!(rest.len(), 10);
    assert_eq!(rest[0].name, "n09");
    assert_eq!(rest[9].name, "n00");
    let beyond = db.get_projects_by_owner_limited("big".to_string(), Some(70)).payload.unwrap();
    assert!(beyond.is_empty());
    let clamped = db.get_projects_by_owner_limited("big".to_string(), Some(-3)).payload.unwrap();
    assert_eq!(clamped.len(), 50);
    assert_eq!(clamped[0].name, "n59");
    let again = db.get_projects_by_owner_limited("big".to_string(), Some(0)).payload.unwrap();
    assert_eq!(again.len(), 50);
    assert_eq!(db.owned_count("big"), 60);
    assert_eq!(db.owned_count("alice"), 1);
}

#[test]
fn listing_keeps_table_order_among_equal_times() {
    let mut db = store_with(&[("alice", &[])]);
    db.create_project(&props("one"), some("alice"), 7);
    db.create_project(&props("two"), some("alice"), 9);
    db.create_project(&props("three"), some("alice"), 7);
    let page = db.get_projects_by_owner_limited("alice".to_string(), None).payload.unwrap();
    let names: Vec<&str> = page.iter().map(|p| p.name.as_str()).collect();
    assert_eq!(names, vec!["two", "one", "three"]);
}

#[test]
fn listing_cache_is_dropped_when_a_project_is_created() {
    let mut db = store_with(&[("alice", &[])]);
    db.create_project(&props("one"), some("alice"), 1);
    assert_eq!(db.get_projects_by_owner_limited("alice".to_string(), None).payload.unwrap().len(), 1);
    db.create_project(&props("two"), some("alice"), 2);
    let page = db.get_projects_by_owner_limited("alice".to_string(), None).payload.unwrap();
    assert_eq!(page.len(), 2);
    assert_eq!(page[0].name, "two");
}

#[test]
fn edit_fields_needs_a_known_editor_with_rights() {
    let mut db = store_with(&[("alice", &[]), ("bob", &[]), ("root", &["VIB:Admin"])]);
    db.create_project(&props("demo"), some("alice"), 1);
    let fields = || PEditFieldsByName { name: String::new(), owner: "bob".to_string() };
    let missing = db.edit_fields_by_name("none".to_string(), fields(), some("alice"), false);
    assert_eq!(missing.error, Some(StoreError::NotFound));
    let anonymous = db.edit_fields_by_name("demo".to_string(), fields(), None, false);
    assert_eq!(anonymous.error, Some(StoreError::Forbidden));
    assert_eq!(anonymous.message, "An account is required to do this");
    let unknown = db.edit_fields_by_name("demo".to_string(), fields(), some("ghost"), false);
    assert_eq!(unknown.message, "An account is required to do this");
    let stranger = db.edit_fields_by_name("demo".to_string(), fields(), some("bob"), false);
    assert_eq!(stranger.error, Some(StoreError::Forbidden));
    assert_eq!(stranger.message, "You do not have permission to manage this project's contents.");
    assert_eq!(db.get_project_by_id("demo".to_string()).payload.unwrap().owner, "alice");
}

#[test]
fn edit_fields_forces_the_owner_back_to_the_editor() {
    let mut db = store_with(&[("alice", &[]), ("bob", &[]), ("root", &["VIB:Admin"])]);
    db.create_project(&props("demo"), some("alice"), 1);
    let kept = db.edit_fields_by_name(
        "demo".to_string(),
        PEditFieldsByName { name: "x".to_string(), owner: "bob".to_string() },
        some("alice"),
        false,
    );
    assert!(kept.success);
    assert_eq!(kept.message, "Project updated!");
    assert_eq!(kept.payload.unwrap(), "demo");
    assert_eq!(db.get_project_by_id("demo".to_string()).payload.unwrap().owner, "alice");
    let taken = db.edit_fields_by_name(
        "demo".to_string(),
        PEditFieldsByName { name: String::new(), owner: "bob".to_string() },
        some("root"),
        false,
    );
    assert!(taken.success);
    assert_eq!(db.get_project_by_id("demo".to_string()).payload.unwrap().owner, "root");
}

#[test]
fn edit_fields_hands_a_project_on_with_the_right_permission() {
    let mut db = store_with(&[("alice", &["VIB:Actions:EditOwner"]), ("bob", &[])]);
    db.create_project(&props("demo"), some("alice"), 1);
    db.get_projects_by_owner_limited("alice".to_string(), None);
    db.get_projects_by_owner_limited("bob".to_string(), None);
    let moved = db.edit_fields_by_name(
        "demo".to_string(),
        PEditFieldsByName { name: String::new(), owner: "bob".to_string() },
        some("alice"),
        false,
    );
    assert!(moved.success);
    assert_eq!(db.get_project_by_id("demo".to_string()).payload.unwrap().owner, "bob");
    assert!(db.get_projects_by_owner_limited("alice".to_string(), None).payload.unwrap().is_empty());
    assert_eq!(db.get_projects_by_owner_limited("bob".to_string(), None).payload.unwrap().len(), 1);
}

#[test]
fn rename_carries_the_files_and_drops_the_old_name() {
    let mut db = store_with(&[("alice", &[])]);
    db.create_project(&props("demo"), some("alice"), 1);
    db.create_project(&props("taken"), some("alice"), 2);
    db.store_file_in_project("demo".to_string(), "a.txt".to_string(), "YQ==".to_string(), some("alice"));
    let clash = db.edit_fields_by_name(
        "demo".to_string(),
        PEditFieldsByName { name: "taken".to_string(), owner: String::new() },
        some("alice"),
        false,
    );
    assert_eq!(clash.error, Some(StoreError::AlreadyExists));
    assert_eq!(clash.message, "This project name is already in use!");
    let bad = db.edit_fields_by_name(
        "demo".to_string(),
        PEditFieldsByName { name: "not valid".to_string(), owner: String::new() },
        some("alice"),
        false,
    );
    assert_eq!(bad.error, Some(StoreError::InvalidInput));
    let renamed = db.edit_fields_by_name(
        "demo".to_string(),
        PEditFieldsByName { name: "fresh".to_string(), owner: String::new() },
        some("alice"),
        false,
    );
    assert!(renamed.success);
    assert_eq!(renamed.payload.unwrap(), "fresh");
    assert!(!db.get_project_by_id("demo".to_string()).success);
    assert_eq!(db.get_project_by_id("fresh".to_string()).payload.unwrap().owner, "alice");
    let read = db.get_file_in_project("fresh".to_string(), "/a.txt".to_string(), None, false, false);
    assert_eq!(read.payload.unwrap(), b"a".to_vec());
    let old = db.get_file_in_project("demo".to_string(), "/a.txt".to_string(), None, false, false);
    assert!(!old.success);
    let files = db.get_project_files("fresh".to_string(), None, false);
    assert_eq!(files.payload, vec!["/a.txt".to_string()]);
    let page = db.get_projects_by_owner_limited("alice".to_string(), None).payload.unwrap();
    let names: Vec<&str> = page.iter().map(|p| p.name.as_str()).collect();
    assert_eq!(names, vec!["taken", "fresh"]);
}

#[test]
fn metadata_edit_is_seen_by_the_next_get() {
    let mut db = store_with(&[("alice", &[]), ("bob", &[])]);
    db.create_project(&props("demo"), some("alice"), 1);
    db.get_project_by_id("demo".to_string());
    let metadata = || ProjectMetadata {
        script: "make".to_string(),
        file_privacy: ProjectFilePrivacy::Private,
        clean_paths: true,
    };
    let refused = db.edit_project_metadata_by_name("demo".to_string(), metadata(), some("bob"));
    assert_eq!(refused.error, Some(StoreError::Forbidden));
    let anonymous = db.edit_project_metadata_by_name("demo".to_string(), metadata(), None);
    assert_eq!(anonymous.error, Some(StoreError::Forbidden));
    let done = db.edit_project_metadata_by_name("demo".to_string(), metadata(), some("alice"));
    assert!(done.success);
    assert_eq!(done.payload.unwrap(), "demo");
    let project = db.get_project_by_id("demo".to_string()).payload.unwrap();
    assert_eq!(project.metadata.file_privacy, ProjectFilePrivacy::Private);
    assert!(project.metadata.clean_paths);
    assert_eq!(project.metadata.script, "make");
}

#[test]
fn private_metadata_edit_may_be_the_systems_own() {
    let mut db = store_with(&[("alice", &[]), ("bob", &[])]);
    db.create_project(&props("demo"), some("alice"), 1);
    db.get_projects_by_owner_limited("alice".to_string(), None);
    let mut metadata = ProjectPrivateMetadata::new(ProjectType::StaticContainer, 1);
    metadata.limit = ProjectRequestLimit::Enterprise;
    let refused =
        db.edit_project_private_metadata_by_name("demo".to_string(), metadata.clone(), some("bob"));
    assert_eq!(refused.error, Some(StoreError::Forbidden));
    let missing =
        db.edit_project_private_metadata_by_name("none".to_string(), metadata.clone(), None);
    assert_eq!(missing.error, Some(StoreError::NotFound));
    let done = db.edit_project_private_metadata_by_name("demo".to_string(), metadata, None);
    assert!(done.success);
    let project = db.get_project_by_id("demo".to_string()).payload.unwrap();
    assert_eq!(project.private_metadata.kind, ProjectType::StaticContainer);
    assert_eq!(project.private_metadata.limit, ProjectRequestLimit::Enterprise);
    let page = db.get_projects_by_owner_limited("alice".to_string(), None).payload.unwrap();
    assert_eq!(page[0].kind, ProjectType::StaticContainer);
}

#[test]
fn delete_removes_project_files_and_cache() {
    let mut db = store_with(&[("alice", &[]), ("bob", &[]), ("root", &["VIB:Admin"])]);
    db.create_project(&props("demo"), some("alice"), 1);
    db.store_file_in_project("demo".to_string(), "/a".to_string(), "YQ==".to_string(), some("alice"));
    assert!(db.get_project_by_id("demo".to_string()).success);
    assert!(db.get_file_in_project("demo".to_string(), "/a".to_string(), None, false, false).success);
    db.get_projects_by_owner_limited("alice".to_string(), None);
    let refused = db.delete_project("demo".to_string(), some("bob"));
    assert_eq!(refused.error, Some(StoreError::Forbidden));
    let anonymous = db.delete_project("demo".to_string(), None);
    assert_eq!(anonymous.error, Some(StoreError::Forbidden));
    let done = db.delete_project("demo".to_string(), some("root"));
    assert!(done.success);
    assert_eq!(done.message, "Project deleted!");
    let left = done.payload.unwrap();
    assert_eq!(left.name, "demo");
    assert_eq!(left.container, None);
    let got = db.get_project_by_id("demo".to_string());
    assert!(!got.success);
    assert_eq!(got.error, Some(StoreError::NotFound));
    let read = db.get_file_in_project("demo".to_string(), "/a".to_string(), None, true, true);
    assert_eq!(read.error, Some(StoreError::NotFound));
    assert!(db.get_projects_by_owner_limited("alice".to_string(), None).payload.unwrap().is_empty());
    let again = db.create_project(&props("demo"), some("bob"), 9);
    assert!(again.success);
    assert_eq!(again.message, "Project created");
    assert!(db.get_project_files("demo".to_string(), None, true).payload.is_empty());
}

#[test]
fn delete_then_get_fails_not_found() {
    let mut db = store_with(&[("alice", &[])]);
    db.create_project(&props("demo"), some("alice"), 1);
    assert!(db.get_project_by_id("demo".to_string()).success);
    assert!(db.delete_project("demo".to_string(), some("alice")).success);
    let got = db.get_project_by_id("demo".to_string());
    assert!(!got.success);
    assert_eq!(got.error, Some(StoreError::NotFound));
    assert!(got.payload.is_none());
}
