use vibrant::config::{default_auth_server, default_server, default_token, Configuration};
use vibrant::containers::{project_variable, url_variable};
use vibrant::db::Database;
use vibrant::identity::{resolve, Identity};
use vibrant::model::{
    ContainerState, PCreateProject, ProjectFilePrivacy, ProjectPrivateMetadata, ProjectRequestLimit,
    ProjectType,
};
use vibrant::outcome::{DefaultReturn, Failure, StoreError};
use vibrant::text::{contains, decimal, starts_with};

fn user(name: &str, permissions: &[&str]) -> Identity {
    let list: Vec<String> = permissions.iter().map(|p| p.to_string()).collect();
    Identity { username: name.to_string(), capabilities: resolve(&list) }
}

fn some(name: &str) -> Option<String> {
    Some(name.to_string())
}

fn demo_store() -> Database {
    let mut db = Database::new();
    db.put_user(user("alice", &[]));
    db.put_user(user("bob", &[]));
    let props = PCreateProject { name: "demo".to_string(), kind: ProjectType::StaticPackage };
    assert!(db.create_project(&props, some("alice"), 1).success);
    db
}

fn backed_store() -> Database {
    let mut db = demo_store();
    let metadata = ProjectPrivateMetadata::new(ProjectType::StaticContainer, 1);
    assert!(db.edit_project_private_metadata_by_name("demo".to_string(), metadata, None).success);
    db
}

#[test]
fn toggle_twice_returns_the_counter() {
    let mut db = demo_store();
    assert_eq!(db.get_project_favorites("demo".to_string()).payload, 0);
    let on = db.toggle_user_project_favorite("bob".to_string(), "demo".to_string());
    assert!(on.success);
    assert_eq!(on.message, "Favorite added");
    assert_eq!(on.payload.unwrap(), "demo");
    let counted = db.get_project_favorites("demo".to_string());
    assert!(counted.success);
    assert_eq!(counted.message, "demo");
    assert_eq!(counted.payload, 1);
    let found = db.get_user_project_favorite("bob".to_string(), "demo".to_string(), false);
    assert!(found.success);
    assert_eq!(found.payload.unwrap().user, "bob");
    let off = db.toggle_user_project_favorite("bob".to_string(), "demo".to_string());
    assert!(off.success);
    assert_eq!(off.message, "Favorite removed");
    assert_eq!(db.get_project_favorites("demo".to_string()).payload, 0);
    let gone = db.get_user_project_favorite("bob".to_string(), "demo".to_string(), true);
    assert!(!gone.success);
    assert_eq!(gone.error, Some(StoreError::NotFound));
}

#[test]
fn toggle_is_refused_to_the_owner_and_on_missing_projects() {
    let mut db = demo_store();
    let own = db.toggle_user_project_favorite("alice".to_string(), "demo".to_string());
    assert_eq!(own.error, Some(StoreError::Forbidden));
    assert_eq!(own.message, "You're the project owner!");
    let none = db.toggle_user_project_favorite("bob".to_string(), "none".to_string());
    assert_eq!(none.error, Some(StoreError::NotFound));
    assert_eq!(db.get_project_favorites("demo".to_string()).payload, 0);
    let missing = db.get_project_favorites("none".to_string());
    assert!(!missing.success);
    assert_eq!(missing.payload, 0);
    let unchecked = db.get_user_project_favorite("bob".to_string(), "none".to_string(), false);
    assert_eq!(unchecked.message, "Project does not exist!");
}

#[test]
fn favorites_of_two_users_are_counted() {
    let mut db = demo_store();
    db.put_user(user("carol", &[]));
    db.toggle_user_project_favorite("bob".to_string(), "demo".to_string());
    db.toggle_user_project_favorite("carol".to_string(), "demo".to_string());
    assert_eq!(db.get_project_favorites("demo".to_string()).payload, 2);
    db.toggle_user_project_favorite("bob".to_string(), "demo".to_string());
    assert_eq!(db.get_project_favorites("demo".to_string()).payload, 1);
    assert!(db.get_user_project_favorite("carol".to_string(), "demo".to_string(), true).success);
}

#[test]
fn container_is_a_no_op_for_uploaded_projects() {
    let mut db = demo_store();
    let request = db.container_request("demo".to_string(), 8080);
    assert!(request.success);
    assert_eq!(request.message, "Project is not a container project");
    assert!(request.payload.is_none());
    let created = db.create_project_container("demo".to_string(), some("c1"));
    assert!(created.success);
    assert!(created.payload.is_none());
    assert!(db.start_project_container("demo".to_string(), true).success);
    assert!(db.remove_project_container("demo".to_string(), true).success);
    let project = db.get_project_by_id("demo".to_string()).payload.unwrap();
    assert_eq!(project.private_metadata.cid, None);
    assert_eq!(project.private_metadata.container, ContainerState::NotCreated);
    let missing = db.create_project_container("none".to_string(), some("c1"));
    assert_eq!(missing.error, Some(StoreError::NotFound));
}

#[test]
fn container_request_names_image_and_environment() {
    let mut db = backed_store();
    let request = db.container_request("demo".to_string(), 8080).payload.unwrap();
    assert_eq!(request.image, "vibrant_deploy_kit:latest");
    assert_eq!(
        request.env,
        vec!["VIBRANT_URL=\"http://localhost:8080\"".to_string(), "PROJECT=\"demo\"".to_string()]
    );
    assert_eq!(request.extra_hosts, vec!["host.docker.internal:host-gateway".to_string()]);
    assert_eq!(url_variable(0), "VIBRANT_URL=\"http://localhost:0\"");
    assert_eq!(url_variable(65535), "VIBRANT_URL=\"http://localhost:65535\"");
    assert_eq!(project_variable("a-b"), "PROJECT=\"a-b\"");
}

#[test]
fn container_goes_from_created_to_running_to_removed() {
    let mut db = backed_store();
    let early = db.start_project_container("demo".to_string(), true);
    assert!(!early.success);
    assert_eq!(early.error, Some(StoreError::NotFound));
    assert_eq!(early.message, "Project container does not exist");
    assert_eq!(db.container_target("demo".to_string()).error, Some(StoreError::NotFound));
    let early_removal = db.remove_project_container("demo".to_string(), true);
    assert_eq!(early_removal.error, Some(StoreError::NotFound));
    let failed = db.create_project_container("demo".to_string(), None);
    assert_eq!(failed.error, Some(StoreError::ContainerOperationFailed));
    assert_eq!(failed.message, "Failed to create container");
    let created = db.create_project_container("demo".to_string(), some("c1"));
    assert!(created.success);
    assert_eq!(created.payload.unwrap(), "c1");
    let project = db.get_project_by_id("demo".to_string()).payload.unwrap();
    assert_eq!(project.private_metadata.cid, some("c1"));
    assert_eq!(project.private_metadata.container, ContainerState::Created);
    assert_eq!(db.container_target("demo".to_string()).payload.unwrap(), "c1");
    let refused = db.start_project_container("demo".to_string(), false);
    assert_eq!(refused.error, Some(StoreError::ContainerOperationFailed));
    assert_eq!(refused.message, "Failed to start project container");
    let started = db.start_project_container("demo".to_string(), true);
    assert!(started.success);
    assert_eq!(started.payload.unwrap(), "c1");
    let project = db.get_project_by_id("demo".to_string()).payload.unwrap();
    assert_eq!(project.private_metadata.container, ContainerState::Running);
    let kept = db.remove_project_container("demo".to_string(), false);
    assert_eq!(kept.error, Some(StoreError::ContainerOperationFailed));
    assert_eq!(kept.message, "Failed to delete project container");
    let removed = db.remove_project_container("demo".to_string(), true);
    assert!(removed.success);
    assert_eq!(removed.message, "Container deleted");
    assert_eq!(removed.payload.unwrap(), "c1");
    let project = db.get_project_by_id("demo".to_string()).payload.unwrap();
    assert_eq!(project.private_metadata.cid, None);
    assert_eq!(project.private_metadata.container, ContainerState::Removed);
    assert!(!db.start_project_container("demo".to_string(), true).success);
}

#[test]
fn deleting_a_backed_project_names_its_container() {
    let mut db = backed_store();
    db.create_project_container("demo".to_string(), some("c9"));
    let deleted = db.delete_project("demo".to_string(), some("alice")).payload.unwrap();
    assert_eq!(deleted.name, "demo");
    assert_eq!(deleted.container, some("c9"));
}

#[test]
fn every_reason_has_its_kind_and_message() {
    let all = [
        (Failure::ProjectMissing, StoreError::NotFound, "Project does not exist!"),
        (Failure::AccountRequired, StoreError::Forbidden, "You must have an account to do this."),
        (Failure::EditorRequired, StoreError::Forbidden, "An account is required to do this"),
        (Failure::NameInvalid, StoreError::InvalidInput, "Name is invalid"),
        (Failure::NameTaken, StoreError::AlreadyExists, "A project with this name already exists!"),
        (Failure::NameInUse, StoreError::AlreadyExists, "This project name is already in use!"),
        (Failure::UserInvalid, StoreError::Forbidden, "User is invalid!"),
        (
            Failure::ProjectLimitReached,
            StoreError::QuotaExceeded,
            "You have reached the maximum number of projects allowed for your account level.",
        ),
        (
            Failure::NotPermitted,
            StoreError::Forbidden,
            "You do not have permission to manage this project's contents.",
        ),
        (Failure::ViewNotAllowed, StoreError::Forbidden, "Not allowed to view project files!"),
        (
            Failure::ListingNotAllowed,
            StoreError::Forbidden,
            "Not allowed to view project file listing!",
        ),
        (Failure::ProtectedPath, StoreError::Forbidden, "This path requires protected read access."),
        (Failure::OwnerInvalid, StoreError::Forbidden, "Project owner is invalid!"),
        (Failure::RequestLimitExceeded, StoreError::QuotaExceeded, "Limit exceeded!"),
        (Failure::FileMissing, StoreError::NotFound, "Unable to find file at given path!"),
        (
            Failure::ContentCorrupt,
            StoreError::BackingStoreError,
            "Stored file content is not valid base64",
        ),
        (Failure::IsOwner, StoreError::Forbidden, "You're the project owner!"),
        (Failure::FavoriteMissing, StoreError::NotFound, "This user has not marked the project"),
        (Failure::ContainerMissing, StoreError::NotFound, "Project container does not exist"),
        (
            Failure::ContainerCreateFailed,
            StoreError::ContainerOperationFailed,
            "Failed to create container",
        ),
        (
            Failure::ContainerStartFailed,
            StoreError::ContainerOperationFailed,
            "Failed to start project container",
        ),
        (
            Failure::ContainerRemoveFailed,
            StoreError::ContainerOperationFailed,
            "Failed to delete project container",
        ),
    ];
    for (reason, kind, message) in all {
        assert_eq!(reason.kind(), kind);
        assert_eq!(reason.message(), message);
    }
}

#[test]
fn a_failure_of_the_backing_store_keeps_its_words() {
    let failed: DefaultReturn<Option<String>> =
        DefaultReturn::storage_failed("disk is full".to_string(), None);
    assert!(!failed.success);
    assert_eq!(failed.error, Some(StoreError::BackingStoreError));
    assert_eq!(failed.message, "disk is full");
    assert!(failed.payload.is_none());
    let fine = DefaultReturn::ok("done".to_string(), 3);
    assert!(fine.success);
    assert_eq!(fine.error, None);
    assert_eq!(fine.payload, 3);
    let refused = DefaultReturn::fail(Failure::NameInvalid, 0);
    assert_eq!(refused.error, Some(StoreError::InvalidInput));
    assert_eq!(refused.message, "Name is invalid");
}

#[test]
fn variants_are_shown_by_their_names() {
    assert_eq!(ProjectRequestLimit::Default.to_string(), "Default");
    assert_eq!(ProjectRequestLimit::Enterprise.to_string(), "Enterprise");
    assert_eq!(ProjectRequestLimit::Disabled.to_string(), "Disabled");
    assert_eq!(ProjectType::StaticPackage.to_string(), "StaticPackage");
    assert_eq!(ProjectType::StaticContainer.to_string(), "StaticContainer");
    assert_eq!(ProjectFilePrivacy::Public.to_string(), "Public");
    assert_eq!(ProjectFilePrivacy::Confidential.to_string(), "Confidential");
    assert_eq!(ProjectFilePrivacy::Private.to_string(), "Private");
    assert_eq!(ProjectRequestLimit::default(), ProjectRequestLimit::Default);
    assert_eq!(ProjectType::default(), ProjectType::StaticPackage);
    assert_eq!(ProjectFilePrivacy::default(), ProjectFilePrivacy::Public);
}

#[test]
fn configuration_defaults() {
    assert_eq!(default_server(), "https://stellular.org");
    assert_eq!(default_auth_server(), "https://orion.stellular.net");
    assert_eq!(default_token(), "NO_TOKEN_PROVIDED");
    let config = Configuration::default();
    assert_eq!(config.server, "https://stellular.org");
    assert_eq!(config.auth_server, "https://orion.stellular.net");
    assert_eq!(config.token, "NO_TOKEN_PROVIDED");
    assert!(config.name.is_none());
    assert!(!config.has_token());
    let with = Configuration { token: "t".to_string(), ..Configuration::default() };
    assert!(with.has_token());
}

#[test]
fn text_helpers() {
    assert_eq!(decimal(0), "0");
    assert_eq!(decimal(7), "7");
    assert_eq!(decimal(10), "10");
    assert_eq!(decimal(8080), "8080");
    assert_eq!(decimal(u64::MAX), "18446744073709551615");
    assert!(contains("abc", ""));
    assert!(contains("abc", "bc"));
    assert!(!contains("abc", "cb"));
    assert!(!contains("ab", "abc"));
    assert!(contains("héllo", "llo"));
    assert!(starts_with("/a", "/"));
    assert!(!starts_with("a/", "/"));
    assert!(starts_with("a", ""));
    assert!(!starts_with("", "/"));
}
