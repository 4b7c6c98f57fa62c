//! The records the store keeps, and their mathematical views.

use vstd::prelude::*;
use vstd::string::*;

verus! {

/// How many requests a project may serve in one billing period.
#[derive(Clone, Copy, Debug, PartialEq, Eq, Structural)]
pub enum ProjectRequestLimit {
    /// 1,000,000 requests per billing period.
    Default,
    /// 100,000,000 requests per billing period.
    Enterprise,
    /// No ceiling; requests are not held against any limit.
    Disabled,
}

/// How the files of a project come to be.
#[derive(Clone, Copy, Debug, PartialEq, Eq, Structural)]
pub enum ProjectType {
    /// Files are uploaded one by one and kept as base64 text.
    StaticPackage,
    /// Files are produced inside a build container that belongs to the project.
    StaticContainer,
}

/// Who may list and read the files of a project.
#[derive(Clone, Copy, Debug, PartialEq, Eq, Structural)]
pub enum ProjectFilePrivacy {
    /// Anybody may list and read.
    Public,
    /// Nobody but the owner may list; anybody may read.
    Confidential,
    /// Only the owner may list or read.
    Private,
}

/// Where the build container of a project stands in its life.
#[derive(Clone, Copy, Debug, PartialEq, Eq, Structural)]
pub enum ContainerState {
    NotCreated,
    Created,
    Running,
    Removed,
}

impl Default for ProjectRequestLimit {
    fn default() -> (r: Self)
        ensures
            r == ProjectRequestLimit::Default,
    {
        ProjectRequestLimit::Default
    }
}

impl Default for ProjectType {
    fn default() -> (r: Self)
        ensures
            r == ProjectType::StaticPackage,
    {
        ProjectType::StaticPackage
    }
}

impl Default for ProjectFilePrivacy {
    fn default() -> (r: Self)
        ensures
            r == ProjectFilePrivacy::Public,
    {
        ProjectFilePrivacy::Public
    }
}

impl ProjectRequestLimit {
    /// The variant's name.
    pub open spec fn spec_name(self) -> Seq<char> {
        match self {
            ProjectRequestLimit::Default => "Default"@,
            ProjectRequestLimit::Enterprise => "Enterprise"@,
            ProjectRequestLimit::Disabled => "Disabled"@,
        }
    }

    /// The variant's name, as it is shown to people.
    pub fn to_string(&self) -> (r: String)
        ensures
            r@ == self.spec_name(),
    {
        match self {
            ProjectRequestLimit::Default => String::from_str("Default"),
            ProjectRequestLimit::Enterprise => String::from_str("Enterprise"),
            ProjectRequestLimit::Disabled => String::from_str("Disabled"),
        }
    }
}

impl ProjectType {
    /// The variant's name.
    pub open spec fn spec_name(self) -> Seq<char> {
        match self {
            ProjectType::StaticPackage => "StaticPackage"@,
            ProjectType::StaticContainer => "StaticContainer"@,
        }
    }

    /// The variant's name, as it is shown to people.
    pub fn to_string(&self) -> (r: String)
        ensures
            r@ == self.spec_name(),
    {
        match self {
            ProjectType::StaticPackage => String::from_str("StaticPackage"),
            ProjectType::StaticContainer => String::from_str("StaticContainer"),
        }
    }
}

impl ProjectFilePrivacy {
    /// The variant's name.
    pub open spec fn spec_name(self) -> Seq<char> {
        match self {
            ProjectFilePrivacy::Public => "Public"@,
            ProjectFilePrivacy::Confidential => "Confidential"@,
            ProjectFilePrivacy::Private => "Private"@,
        }
    }

    /// The variant's name, as it is shown to people.
    pub fn to_string(&self) -> (r: String)
        ensures
            r@ == self.spec_name(),
    {
        match self {
            ProjectFilePrivacy::Public => String::from_str("Public"),
            ProjectFilePrivacy::Confidential => String::from_str("Confidential"),
            ProjectFilePrivacy::Private => String::from_str("Private"),
        }
    }
}

/// The image a container-backed project builds in unless another was chosen.
pub open spec fn spec_kit_image() -> Seq<char> {
    "vibrant_deploy_kit:latest"@
}

/// The image a container-backed project builds in unless another was chosen.
pub fn kit_image() -> (r: String)
    ensures
        r@ == spec_kit_image(),
{
    String::from_str("vibrant_deploy_kit:latest")
}

/// Copies an optional text.
pub fn clone_text_option(text: &Option<String>) -> (r: Option<String>)
    ensures
        r == *text,
{
    match text {
        Some(t) => Some(t.clone()),
        None => None,
    }
}

/// An optional text, as a sequence of characters.
pub open spec fn text_option_view(text: Option<String>) -> Option<Seq<char>> {
    match text {
        Some(t) => Some(t@),
        None => None,
    }
}

/// What only an administrator may change of a project.
pub struct ProjectPrivateMetadata {
    pub kind: ProjectType,
    pub limit: ProjectRequestLimit,
    /// When the project was created, in milliseconds since the epoch.
    pub created: u128,
    /// The image a container-backed project builds in.
    pub image: String,
    /// The identifier the daemon gave to the project's container.
    pub cid: Option<String>,
    /// The state of that container.
    pub container: ContainerState,
}

/// The private metadata of a project, by its view.
pub struct PrivateMetadataView {
    pub kind: ProjectType,
    pub limit: ProjectRequestLimit,
    pub created: u128,
    pub image: Seq<char>,
    pub cid: Option<Seq<char>>,
    pub container: ContainerState,
}

impl View for ProjectPrivateMetadata {
    type V = PrivateMetadataView;

    open spec fn view(&self) -> PrivateMetadataView {
        PrivateMetadataView {
            kind: self.kind,
            limit: self.limit,
            created: self.created,
            image: self.image@,
            cid: text_option_view(self.cid),
            container: self.container,
        }
    }
}

impl PrivateMetadataView {
    /// The metadata a fresh project starts with.
    pub open spec fn fresh(kind: ProjectType, now: u128) -> PrivateMetadataView {
        PrivateMetadataView {
            kind,
            limit: ProjectRequestLimit::Default,
            created: now,
            image: spec_kit_image(),
            cid: None,
            container: ContainerState::NotCreated,
        }
    }
}

impl Clone for ProjectPrivateMetadata {
    fn clone(&self) -> (r: Self)
        ensures
            r == *self,
    {
        ProjectPrivateMetadata {
            kind: self.kind,
            limit: self.limit,
            created: self.created,
            image: self.image.clone(),
            cid: clone_text_option(&self.cid),
            container: self.container,
        }
    }
}

impl ProjectPrivateMetadata {
    /// The metadata a fresh project of the given kind starts with.
    pub fn new(kind: ProjectType, now: u128) -> (r: Self)
        ensures
            r@ == PrivateMetadataView::fresh(kind, now),
    {
        ProjectPrivateMetadata {
            kind,
            limit: ProjectRequestLimit::Default,
            created: now,
            image: kit_image(),
            cid: None,
            container: ContainerState::NotCreated,
        }
    }
}

/// What the owner of a project may change of it.
pub struct ProjectMetadata {
    /// The deployment script of a container-backed project.
    pub script: String,
    pub file_privacy: ProjectFilePrivacy,
    /// Whether a path without an extension is read as the page of that name.
    pub clean_paths: bool,
}

/// The metadata of a project, by its view.
pub struct MetadataView {
    pub script: Seq<char>,
    pub file_privacy: ProjectFilePrivacy,
    pub clean_paths: bool,
}

impl View for ProjectMetadata {
    type V = MetadataView;

    open spec fn view(&self) -> MetadataView {
        MetadataView {
            script: self.script@,
            file_privacy: self.file_privacy,
            clean_paths: self.clean_paths,
        }
    }
}

impl MetadataView {
    /// The metadata a fresh project starts with.
    pub open spec fn fresh() -> MetadataView {
        MetadataView {
            script: Seq::<char>::empty(),
            file_privacy: ProjectFilePrivacy::Public,
            clean_paths: false,
        }
    }
}

impl Clone for ProjectMetadata {
    fn clone(&self) -> (r: Self)
        ensures
            r == *self,
    {
        ProjectMetadata {
            script: self.script.clone(),
            file_privacy: self.file_privacy,
            clean_paths: self.clean_paths,
        }
    }
}

impl Default for ProjectMetadata {
    fn default() -> (r: Self)
        ensures
            r@ == MetadataView::fresh(),
    {
        ProjectMetadata {
            script: String::new(),
            file_privacy: ProjectFilePrivacy::Public,
            clean_paths: false,
        }
    }
}

/// A named, owned collection of files.
pub struct Project {
    /// The unique name of the project.
    pub name: String,
    /// The user who owns the project.
    pub owner: String,
    /// When the running billing period began, in milliseconds since the epoch.
    pub timestamp: u128,
    pub private_metadata: ProjectPrivateMetadata,
    pub metadata: ProjectMetadata,
}

/// The record of a project, by its view.
pub struct ProjectView {
    pub name: Seq<char>,
    pub owner: Seq<char>,
    pub timestamp: u128,
    pub private_metadata: PrivateMetadataView,
    pub metadata: MetadataView,
}

impl View for Project {
    type V = ProjectView;

    open spec fn view(&self) -> ProjectView {
        ProjectView {
            name: self.name@,
            owner: self.owner@,
            timestamp: self.timestamp,
            private_metadata: self.private_metadata@,
            metadata: self.metadata@,
        }
    }
}

impl ProjectView {
    /// The record of a project that was created just now: its billing period
    /// begins now, and its metadata is the default.
    pub open spec fn fresh(name: Seq<char>, owner: Seq<char>, now: u128) -> ProjectView {
        ProjectView {
            name,
            owner,
            timestamp: now,
            private_metadata: PrivateMetadataView::fresh(ProjectType::StaticPackage, now),
            metadata: MetadataView::fresh(),
        }
    }
}

impl Project {
    /// The record of a project that is created now.
    pub fn new(name: String, owner: String, now: u128) -> (r: Self)
        ensures
            r@ == ProjectView::fresh(name@, owner@, now),
    {
        Project {
            name,
            owner,
            timestamp: now,
            private_metadata: ProjectPrivateMetadata::new(ProjectType::StaticPackage, now),
            metadata: ProjectMetadata::default(),
        }
    }
}

impl Clone for Project {
    fn clone(&self) -> (r: Self)
        ensures
            r == *self,
    {
        Project {
            name: self.name.clone(),
            owner: self.owner.clone(),
            timestamp: self.timestamp,
            private_metadata: self.private_metadata.clone(),
            metadata: self.metadata.clone(),
        }
    }
}

/// The name and kind of a project: what is asked for when one is created, and
/// what a listing shows of each.
pub struct PCreateProject {
    pub name: String,
    pub kind: ProjectType,
}

/// The name and kind of a project, by their view.
pub struct CreateProjectView {
    pub name: Seq<char>,
    pub kind: ProjectType,
}

impl View for PCreateProject {
    type V = CreateProjectView;

    open spec fn view(&self) -> CreateProjectView {
        CreateProjectView { name: self.name@, kind: self.kind }
    }
}

impl Clone for PCreateProject {
    fn clone(&self) -> (r: Self)
        ensures
            r == *self,
    {
        PCreateProject { name: self.name.clone(), kind: self.kind }
    }
}

/// The fields of a project that an edit may change.
pub struct PEditFieldsByName {
    /// The new name; shorter than two characters to keep the present one.
    pub name: String,
    pub owner: String,
}

/// What a deletion leaves to be done outside the store.
pub struct DeletedProject {
    pub name: String,
    /// The container that is to be removed by force, where the project had one.
    pub container: Option<String>,
}

/// One file of a project.
pub struct ProjectFile {
    pub project: String,
    /// The path of the file, which begins with `/`.
    pub path: String,
    /// The content, as base64 text.
    pub content: String,
}

/// One file of a project, by its view.
pub struct FileView {
    pub project: Seq<char>,
    pub path: Seq<char>,
    pub content: Seq<char>,
}

impl View for ProjectFile {
    type V = FileView;

    open spec fn view(&self) -> FileView {
        FileView { project: self.project@, path: self.path@, content: self.content@ }
    }
}

impl Clone for ProjectFile {
    fn clone(&self) -> (r: Self)
        ensures
            r == *self,
    {
        ProjectFile {
            project: self.project.clone(),
            path: self.path.clone(),
            content: self.content.clone(),
        }
    }
}

/// The record that a user marked a project as a favorite.
pub struct ProjectFavoriteLog {
    pub user: String,
    pub project: String,
}

/// The record that a user marked a project, by its view.
pub struct FavoriteView {
    pub user: Seq<char>,
    pub project: Seq<char>,
}

impl View for ProjectFavoriteLog {
    type V = FavoriteView;

    open spec fn view(&self) -> FavoriteView {
        FavoriteView { user: self.user@, project: self.project@ }
    }
}

impl Clone for ProjectFavoriteLog {
    fn clone(&self) -> (r: Self)
        ensures
            r == *self,
    {
        ProjectFavoriteLog { user: self.user.clone(), project: self.project.clone() }
    }
}

/// A group of users that owns projects under one name.
pub struct Organization {
    pub name: String,
    pub owner: String,
    /// When the organization was created, in milliseconds since the epoch.
    pub timestamp: u128,
    pub metadata: OrganizationMetadata,
}

/// What the owner of an organization may change of it: nothing so far.
pub struct OrganizationMetadata {}

impl Default for OrganizationMetadata {
    fn default() -> (r: Self) {
        OrganizationMetadata {  }
    }
}

} // verus!
