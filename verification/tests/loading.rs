use vibrant::db::Database;
use vibrant::identity::{resolve, Identity};
use vibrant::model::{
    PCreateProject, Project, ProjectFavoriteLog, ProjectFile, ProjectType,
};

fn some(name: &str) -> Option<String> {
    Some(name.to_string())
}

fn project(name: &str, owner: &str, at: u128) -> Project {
    Project::new(name.to_string(), owner.to_string(), at)
}

fn file(project: &str, path: &str, content: &str) -> ProjectFile {
    ProjectFile { project: project.to_string(), path: path.to_string(), content: content.to_string() }
}

fn favorite(user: &str, project: &str) -> ProjectFavoriteLog {
    ProjectFavoriteLog { user: user.to_string(), project: project.to_string() }
}

#[test]
fn rows_are_loaded_and_handed_out_again() {
    let db = Database::load(
        vec![project("demo", "alice", 5), project("other", "bob", 9)],
        vec![file("demo", "/a", "YQ=="), file("other", "/a", "Yg==")],
        vec![favorite("bob", "demo")],
    );
    let mut db = db.unwrap();
    db.put_user(Identity { username: "alice".to_string(), capabilities: resolve(&Vec::new()) });
    let names: Vec<String> = db.projects().into_iter().map(|p| p.name).collect();
    assert_eq!(names, vec!["demo".to_string(), "other".to_string()]);
    assert_eq!(db.files().len(), 2);
    assert_eq!(db.favorites().len(), 1);
    assert_eq!(db.get_project_by_id("demo".to_string()).payload.unwrap().timestamp, 5);
    let read = db.get_file_in_project("demo".to_string(), "/a".to_string(), None, false, false);
    assert_eq!(read.payload.unwrap(), b"a".to_vec());
    assert!(db.get_user_project_favorite("bob".to_string(), "demo".to_string(), false).success);
    assert_eq!(db.get_project_favorites("demo".to_string()).payload, 0);
    assert!(db.get_user_by_username("alice").is_some());
    assert!(db.get_user_by_username("bob").is_none());
}

#[test]
fn rows_that_break_an_invariant_are_not_loaded() {
    let twice = Database::load(vec![project("demo", "a", 1), project("demo", "b", 2)], vec![], vec![]);
    assert!(twice.is_none());
    let bad_name = Database::load(vec![project("api", "a", 1)], vec![], vec![]);
    assert!(bad_name.is_none());
    let orphan = Database::load(vec![project("demo", "a", 1)], vec![file("gone", "/a", "")], vec![]);
    assert!(orphan.is_none());
    let unrooted = Database::load(vec![project("demo", "a", 1)], vec![file("demo", "a", "")], vec![]);
    assert!(unrooted.is_none());
    let same_path = Database::load(
        vec![project("demo", "a", 1)],
        vec![file("demo", "/a", "x"), file("demo", "/a", "y")],
        vec![],
    );
    assert!(same_path.is_none());
    let marked_twice =
        Database::load(vec![], vec![], vec![favorite("bob", "demo"), favorite("bob", "demo")]);
    assert!(marked_twice.is_none());
    assert!(Database::load(vec![], vec![], vec![]).is_some());
}

#[test]
fn script_is_read_and_replaced() {
    let mut db = Database::new();
    db.put_user(Identity { username: "alice".to_string(), capabilities: resolve(&Vec::new()) });
    db.put_user(Identity { username: "bob".to_string(), capabilities: resolve(&Vec::new()) });
    let props = PCreateProject { name: "demo".to_string(), kind: ProjectType::StaticContainer };
    assert!(db.create_project(&props, some("alice"), 1).success);
    assert_eq!(db.get_project_script("demo".to_string()).payload.unwrap(), "");
    let refused = db.edit_project_script("demo".to_string(), "make".to_string(), some("bob"));
    assert!(!refused.success);
    let done = db.edit_project_script("demo".to_string(), "make".to_string(), some("alice"));
    assert!(done.success);
    assert_eq!(done.message, "Project updated!");
    assert_eq!(db.get_project_script("demo".to_string()).payload.unwrap(), "make");
    let project = db.get_project_by_id("demo".to_string()).payload.unwrap();
    assert_eq!(project.private_metadata.kind, ProjectType::StaticPackage);
    assert!(!db.get_project_script("none".to_string()).success);
}

#[test]
fn columns_of_a_row_are_sorted() {
    let db = Database::new();
    let sorted = db.sort_hashmap_by_keys(vec![
        ("owner".to_string(), "alice".to_string()),
        ("name".to_string(), "demo".to_string()),
    ]);
    assert_eq!(sorted[0].0, "name");
    assert_eq!(sorted[1].0, "owner");
}

#[test]
fn pages_show_record_files_and_counters() {
    let mut old = project("demo", "alice", 77);
    old.private_metadata.created = 0;
    let mut db = Database::load(
        vec![old, project("shut", "alice", 5)],
        vec![file("demo", "/a", "YQ=="), file("demo", "/b", "Yg==")],
        vec![favorite("bob", "demo")],
    )
    .unwrap();
    db.put_user(Identity { username: "alice".to_string(), capabilities: resolve(&Vec::new()) });
    db.serve_file_in_project("demo".to_string(), "/a".to_string(), None, 80);
    let view = db.project_view("demo".to_string());
    assert!(view.success);
    assert_eq!(view.message, "Project exists");
    let view = view.payload.unwrap();
    assert_eq!(view.project.private_metadata.created, 0);
    assert_eq!(view.files, vec!["/a".to_string(), "/b".to_string()]);
    assert_eq!(view.asset_requests, 1);
    assert_eq!(view.favorites_count, 0);
    assert!(!view.has_favorited);
    assert_eq!(db.get_project_by_id("demo".to_string()).payload.unwrap().private_metadata.created, 77);
    let public = db.project_public_view("demo".to_string(), "bob".to_string()).payload.unwrap();
    assert!(public.has_favorited);
    assert_eq!(public.project.private_metadata.created, 77);
    let other = db.project_public_view("demo".to_string(), "carol".to_string()).payload.unwrap();
    assert!(!other.has_favorited);
    let metadata = vibrant::model::ProjectMetadata {
        script: String::new(),
        file_privacy: vibrant::model::ProjectFilePrivacy::Confidential,
        clean_paths: false,
    };
    assert!(db.edit_project_metadata_by_name("shut".to_string(), metadata, some("alice")).success);
    let shut = db.project_public_view("shut".to_string(), "bob".to_string());
    assert_eq!(shut.error, Some(vibrant::outcome::StoreError::Forbidden));
    assert!(db.project_view("shut".to_string()).success);
    assert!(!db.project_view("none".to_string()).success);
    assert!(!db.project_public_view("none".to_string(), "bob".to_string()).success);
}

#[test]
fn script_text_is_escaped() {
    assert_eq!(vibrant::text::escaped("a`b$c/d\\e"), "a\\`b\\$c\\/d\\\\e");
    assert_eq!(vibrant::text::escaped(""), "");
    assert_eq!(vibrant::text::escaped("plain é"), "plain é");
    assert_eq!(vibrant::text::escaped("//"), "\\/\\/");
}
