//! What every operation of the store hands back: a success flag, a message
//! for people, a payload, and the kind of error where there was one.

use vstd::prelude::*;
use vstd::string::*;

verus! {

/// The kinds of error an operation can end in.
#[derive(Clone, Copy, Debug, PartialEq, Eq, Structural)]
pub enum StoreError {
    /// A project, file or container is absent.
    NotFound,
    /// The caller is not the owner, not an administrator, or may not see the files.
    Forbidden,
    /// A name or path does not pass validation.
    InvalidInput,
    /// A limit of requests or of projects is reached.
    QuotaExceeded,
    /// A name is taken and cannot be reclaimed.
    AlreadyExists,
    /// What the backing store holds cannot be used.
    BackingStoreError,
    /// The container daemon refused an operation.
    ContainerOperationFailed,
}

/// The reasons for which an operation is refused. Each belongs to one kind of
/// error and has one message.
#[derive(Clone, Copy, Debug, PartialEq, Eq, Structural)]
pub enum Failure {
    ProjectMissing,
    AccountRequired,
    EditorRequired,
    NameInvalid,
    NameTaken,
    NameInUse,
    UserInvalid,
    ProjectLimitReached,
    NotPermitted,
    ViewNotAllowed,
    ListingNotAllowed,
    ProtectedPath,
    OwnerInvalid,
    RequestLimitExceeded,
    FileMissing,
    ContentCorrupt,
    IsOwner,
    FavoriteMissing,
    ContainerMissing,
    ContainerCreateFailed,
    ContainerStartFailed,
    ContainerRemoveFailed,
}

impl Failure {
    /// The kind of error this reason belongs to.
    pub open spec fn spec_kind(self) -> StoreError {
        match self {
            Failure::ProjectMissing => StoreError::NotFound,
            Failure::AccountRequired => StoreError::Forbidden,
            Failure::EditorRequired => StoreError::Forbidden,
            Failure::NameInvalid => StoreError::InvalidInput,
            Failure::NameTaken => StoreError::AlreadyExists,
            Failure::NameInUse => StoreError::AlreadyExists,
            Failure::UserInvalid => StoreError::Forbidden,
            Failure::ProjectLimitReached => StoreError::QuotaExceeded,
            Failure::NotPermitted => StoreError::Forbidden,
            Failure::ViewNotAllowed => StoreError::Forbidden,
            Failure::ListingNotAllowed => StoreError::Forbidden,
            Failure::ProtectedPath => StoreError::Forbidden,
            Failure::OwnerInvalid => StoreError::Forbidden,
            Failure::RequestLimitExceeded => StoreError::QuotaExceeded,
            Failure::FileMissing => StoreError::NotFound,
            Failure::ContentCorrupt => StoreError::BackingStoreError,
            Failure::IsOwner => StoreError::Forbidden,
            Failure::FavoriteMissing => StoreError::NotFound,
            Failure::ContainerMissing => StoreError::NotFound,
            Failure::ContainerCreateFailed => StoreError::ContainerOperationFailed,
            Failure::ContainerStartFailed => StoreError::ContainerOperationFailed,
            Failure::ContainerRemoveFailed => StoreError::ContainerOperationFailed,
        }
    }

    /// The kind of error this reason belongs to.
    pub fn kind(&self) -> (r: StoreError)
        ensures
            r == self.spec_kind(),
    {
        match self {
            Failure::ProjectMissing => StoreError::NotFound,
            Failure::AccountRequired => StoreError::Forbidden,
            Failure::EditorRequired => StoreError::Forbidden,
            Failure::NameInvalid => StoreError::InvalidInput,
            Failure::NameTaken => StoreError::AlreadyExists,
            Failure::NameInUse => StoreError::AlreadyExists,
            Failure::UserInvalid => StoreError::Forbidden,
            Failure::ProjectLimitReached => StoreError::QuotaExceeded,
            Failure::NotPermitted => StoreError::Forbidden,
            Failure::ViewNotAllowed => StoreError::Forbidden,
            Failure::ListingNotAllowed => StoreError::Forbidden,
            Failure::ProtectedPath => StoreError::Forbidden,
            Failure::OwnerInvalid => StoreError::Forbidden,
            Failure::RequestLimitExceeded => StoreError::QuotaExceeded,
            Failure::FileMissing => StoreError::NotFound,
            Failure::ContentCorrupt => StoreError::BackingStoreError,
            Failure::IsOwner => StoreError::Forbidden,
            Failure::FavoriteMissing => StoreError::NotFound,
            Failure::ContainerMissing => StoreError::NotFound,
            Failure::ContainerCreateFailed => StoreError::ContainerOperationFailed,
            Failure::ContainerStartFailed => StoreError::ContainerOperationFailed,
            Failure::ContainerRemoveFailed => StoreError::ContainerOperationFailed,
        }
    }

    /// The message shown for this reason.
    pub open spec fn spec_message(self) -> Seq<char> {
        match self {
            Failure::ProjectMissing => "Project does not exist!"@,
            Failure::AccountRequired => "You must have an account to do this."@,
            Failure::EditorRequired => "An account is required to do this"@,
            Failure::NameInvalid => "Name is invalid"@,
            Failure::NameTaken => "A project with this name already exists!"@,
            Failure::NameInUse => "This project name is already in use!"@,
            Failure::UserInvalid => "User is invalid!"@,
            Failure::ProjectLimitReached =>
                "You have reached the maximum number of projects allowed for your account level."@,
            Failure::NotPermitted =>
                "You do not have permission to manage this project's contents."@,
            Failure::ViewNotAllowed => "Not allowed to view project files!"@,
            Failure::ListingNotAllowed => "Not allowed to view project file listing!"@,
            Failure::ProtectedPath => "This path requires protected read access."@,
            Failure::OwnerInvalid => "Project owner is invalid!"@,
            Failure::RequestLimitExceeded => "Limit exceeded!"@,
            Failure::FileMissing => "Unable to find file at given path!"@,
            Failure::ContentCorrupt => "Stored file content is not valid base64"@,
            Failure::IsOwner => "You're the project owner!"@,
            Failure::FavoriteMissing => "This user has not marked the project"@,
            Failure::ContainerMissing => "Project container does not exist"@,
            Failure::ContainerCreateFailed => "Failed to create container"@,
            Failure::ContainerStartFailed => "Failed to start project container"@,
            Failure::ContainerRemoveFailed => "Failed to delete project container"@,
        }
    }

    /// The message shown for this reason.
    pub fn message(&self) -> (r: String)
        ensures
            r@ == self.spec_message(),
    {
        match self {
            Failure::ProjectMissing => String::from_str("Project does not exist!"),
            Failure::AccountRequired => String::from_str("You must have an account to do this."),
            Failure::EditorRequired => String::from_str("An account is required to do this"),
            Failure::NameInvalid => String::from_str("Name is invalid"),
            Failure::NameTaken => String::from_str("A project with this name already exists!"),
            Failure::NameInUse => String::from_str("This project name is already in use!"),
            Failure::UserInvalid => String::from_str("User is invalid!"),
            Failure::ProjectLimitReached => String::from_str(
                "You have reached the maximum number of projects allowed for your account level.",
            ),
            Failure::NotPermitted => String::from_str(
                "You do not have permission to manage this project's contents.",
            ),
            Failure::ViewNotAllowed => String::from_str("Not allowed to view project files!"),
            Failure::ListingNotAllowed => String::from_str(
                "Not allowed to view project file listing!",
            ),
            Failure::ProtectedPath => String::from_str("This path requires protected read access."),
            Failure::OwnerInvalid => String::from_str("Project owner is invalid!"),
            Failure::RequestLimitExceeded => String::from_str("Limit exceeded!"),
            Failure::FileMissing => String::from_str("Unable to find file at given path!"),
            Failure::ContentCorrupt => String::from_str("Stored file content is not valid base64"),
            Failure::IsOwner => String::from_str("You're the project owner!"),
            Failure::FavoriteMissing => String::from_str("This user has not marked the project"),
            Failure::ContainerMissing => String::from_str("Project container does not exist"),
            Failure::ContainerCreateFailed => String::from_str("Failed to create container"),
            Failure::ContainerStartFailed => String::from_str("Failed to start project container"),
            Failure::ContainerRemoveFailed => String::from_str(
                "Failed to delete project container",
            ),
        }
    }
}

/// The envelope every operation answers with.
pub struct DefaultReturn<B> {
    pub success: bool,
    pub message: String,
    pub payload: B,
    /// The kind of error, exactly when `success` is false.
    pub error: Option<StoreError>,
}

impl<B> DefaultReturn<B> {
    /// The envelope reports success with the given message.
    pub open spec fn succeeded(self, message: Seq<char>) -> bool {
        &&& self.success
        &&& self.error is None
        &&& self.message@ == message
    }

    /// The envelope reports the given reason for a refusal.
    pub open spec fn failed(self, reason: Failure) -> bool {
        &&& !self.success
        &&& self.error == Some(reason.spec_kind())
        &&& self.message@ == reason.spec_message()
    }

    /// An envelope that reports success.
    pub fn ok(message: String, payload: B) -> (r: Self)
        ensures
            r.succeeded(message@),
            r.payload == payload,
    {
        DefaultReturn { success: true, message, payload, error: None }
    }

    /// An envelope that reports that the backing store failed, with what the
    /// backing store said of it as the message.
    pub fn storage_failed(message: String, payload: B) -> (r: Self)
        ensures
            !r.success,
            r.error == Some(StoreError::BackingStoreError),
            r.message@ == message@,
            r.payload == payload,
    {
        DefaultReturn {
            success: false,
            message,
            payload,
            error: Some(StoreError::BackingStoreError),
        }
    }

    /// An envelope that reports a refusal.
    pub fn fail(reason: Failure, payload: B) -> (r: Self)
        ensures
            r.failed(reason),
            r.payload == payload,
    {
        DefaultReturn {
            success: false,
            message: reason.message(),
            payload,
            error: Some(reason.kind()),
        }
    }
}

} // verus!
