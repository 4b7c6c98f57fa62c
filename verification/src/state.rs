//! The mathematical model of the store: its tables as sequences of rows, its
//! cache as a map, and what it means for the two to agree.

use vstd::prelude::*;
use crate::cache::{CacheKeyView, CacheValueView};
use crate::identity::IdentityView;
use crate::model::{CreateProjectView, FavoriteView, FileView, ProjectType, ProjectView};
use crate::names::spec_valid_name;
use crate::rows::{find_row, has_row, lemma_found, row_at, unique_rows};

verus! {

/// How many projects one page of a listing shows.
pub const PAGE_SIZE: usize = 50;

/// The key of a project row: its name.
pub open spec fn project_name() -> spec_fn(ProjectView) -> Seq<char> {
    |p: ProjectView| p.name
}

/// The key of a file row: its project and its path.
pub open spec fn file_key() -> spec_fn(FileView) -> (Seq<char>, Seq<char>) {
    |f: FileView| (f.project, f.path)
}

/// The key of a user row: the name of the user.
pub open spec fn user_name() -> spec_fn(IdentityView) -> Seq<char> {
    |u: IdentityView| u.username
}

/// The key of a favorite record: the user and the project.
pub open spec fn favorite_key() -> spec_fn(FavoriteView) -> (Seq<char>, Seq<char>) {
    |f: FavoriteView| (f.user, f.project)
}

/// Row `i` is the project of that name.
pub open spec fn project_at(rows: Seq<ProjectView>, name: Seq<char>, i: int) -> bool {
    row_at(rows, project_name(), name, i)
}

/// Some row is the project of that name.
pub open spec fn has_project(rows: Seq<ProjectView>, name: Seq<char>) -> bool {
    has_row(rows, project_name(), name)
}

/// The project of that name.
pub open spec fn find_project(rows: Seq<ProjectView>, name: Seq<char>) -> Option<ProjectView> {
    find_row(rows, project_name(), name)
}

/// No two projects bear one name.
pub open spec fn unique_projects(rows: Seq<ProjectView>) -> bool {
    unique_rows(rows, project_name())
}

/// Row `i` is the file of that project under that path.
pub open spec fn file_at(rows: Seq<FileView>, project: Seq<char>, path: Seq<char>, i: int) -> bool {
    row_at(rows, file_key(), (project, path), i)
}

/// Some row is the file of that project under that path.
pub open spec fn has_file(rows: Seq<FileView>, project: Seq<char>, path: Seq<char>) -> bool {
    has_row(rows, file_key(), (project, path))
}

/// The content of the file of that project under that path.
pub open spec fn find_file(rows: Seq<FileView>, project: Seq<char>, path: Seq<char>) -> Option<
    Seq<char>,
> {
    match find_row(rows, file_key(), (project, path)) {
        Some(f) => Some(f.content),
        None => None,
    }
}

/// No project holds two files under one path.
pub open spec fn unique_files(rows: Seq<FileView>) -> bool {
    unique_rows(rows, file_key())
}

/// The test that the files of a project pass.
pub open spec fn in_project(project: Seq<char>) -> spec_fn(FileView) -> bool {
    |f: FileView| f.project == project
}

/// The test that the files of all other projects pass.
pub open spec fn outside_project(project: Seq<char>) -> spec_fn(FileView) -> bool {
    |f: FileView| f.project != project
}

/// The paths of the files of a project, in the order of the table.
pub open spec fn paths_of(rows: Seq<FileView>, project: Seq<char>) -> Seq<Seq<char>> {
    rows.filter(in_project(project)).map_values(|f: FileView| f.path)
}

/// Row `i` is the user of that name.
pub open spec fn user_at(rows: Seq<IdentityView>, username: Seq<char>, i: int) -> bool {
    row_at(rows, user_name(), username, i)
}

/// Some row is the user of that name.
pub open spec fn has_user(rows: Seq<IdentityView>, username: Seq<char>) -> bool {
    has_row(rows, user_name(), username)
}

/// The user of that name.
pub open spec fn find_user(rows: Seq<IdentityView>, username: Seq<char>) -> Option<IdentityView> {
    find_row(rows, user_name(), username)
}

/// No two users bear one name.
pub open spec fn unique_users(rows: Seq<IdentityView>) -> bool {
    unique_rows(rows, user_name())
}

/// Row `i` records that the user marked the project.
pub open spec fn favorite_at(rows: Seq<FavoriteView>, user: Seq<char>, project: Seq<char>, i: int)
    -> bool {
    row_at(rows, favorite_key(), (user, project), i)
}

/// The user has marked the project as a favorite.
pub open spec fn is_favorite(rows: Seq<FavoriteView>, user: Seq<char>, project: Seq<char>)
    -> bool {
    has_row(rows, favorite_key(), (user, project))
}

/// No user has marked a project twice.
pub open spec fn unique_favorites(rows: Seq<FavoriteView>) -> bool {
    unique_rows(rows, favorite_key())
}

/// What a listing shows of a project, and what it is ordered by.
pub struct Brief {
    pub owner: Seq<char>,
    pub timestamp: u128,
    pub name: Seq<char>,
    pub kind: ProjectType,
}

/// What a listing shows of a project row.
pub open spec fn brief(p: ProjectView) -> Brief {
    Brief { owner: p.owner, timestamp: p.timestamp, name: p.name, kind: p.private_metadata.kind }
}

/// What a listing shows of each row.
pub open spec fn briefs(rows: Seq<ProjectView>) -> Seq<Brief> {
    rows.map_values(|p: ProjectView| brief(p))
}

/// The test that the projects of an owner pass.
pub open spec fn owned_by(owner: Seq<char>) -> spec_fn(Brief) -> bool {
    |b: Brief| b.owner == owner
}

/// The projects of an owner, in the order of the table.
pub open spec fn projects_of(rows: Seq<ProjectView>, owner: Seq<char>) -> Seq<Brief> {
    briefs(rows).filter(owned_by(owner))
}

/// `sorted` with `p` put behind every project whose billing period began no
/// earlier than that of `p`.
pub open spec fn insert_by_age(sorted: Seq<Brief>, p: Brief) -> Seq<Brief>
    decreases sorted.len(),
{
    if sorted.len() == 0 {
        seq![p]
    } else if sorted.last().timestamp >= p.timestamp {
        sorted.push(p)
    } else {
        insert_by_age(sorted.drop_last(), p).push(sorted.last())
    }
}

/// The rows by the start of their billing period, the latest first; rows that
/// began together keep the order of the table.
pub open spec fn newest_first(rows: Seq<Brief>) -> Seq<Brief>
    decreases rows.len(),
{
    if rows.len() == 0 {
        rows
    } else {
        insert_by_age(newest_first(rows.drop_last()), rows.last())
    }
}

/// The entry of a listing for a project.
pub open spec fn listed(b: Brief) -> CreateProjectView {
    CreateProjectView { name: b.name, kind: b.kind }
}

/// Where a page that is asked for at `offset` begins in a listing of `len` rows.
pub open spec fn page_start(len: int, offset: int) -> int {
    if offset < 0 {
        0
    } else if offset > len {
        len
    } else {
        offset
    }
}

/// Where that page ends.
pub open spec fn page_end(len: int, offset: int) -> int {
    if page_start(len, offset) + PAGE_SIZE > len {
        len
    } else {
        page_start(len, offset) + PAGE_SIZE
    }
}

/// One page of an owner's projects: the owner's projects, the latest billing
/// period first, from `offset` on, fifty at most.
pub open spec fn spec_page(rows: Seq<ProjectView>, owner: Seq<char>, offset: int) -> Seq<
    CreateProjectView,
> {
    let all = newest_first(projects_of(rows, owner));
    all.subrange(page_start(all.len() as int, offset), page_end(all.len() as int, offset)).map_values(
        |b: Brief| listed(b),
    )
}

/// The whole state of the store.
pub struct DbView {
    pub projects: Seq<ProjectView>,
    pub files: Seq<FileView>,
    pub favorites: Seq<FavoriteView>,
    pub users: Seq<IdentityView>,
    pub cache: Map<CacheKeyView, CacheValueView>,
}

impl DbView {
    /// The project of that name.
    pub open spec fn project(self, name: Seq<char>) -> Option<ProjectView> {
        find_project(self.projects, name)
    }

    /// The content of the file of that project under that path.
    pub open spec fn file(self, project: Seq<char>, path: Seq<char>) -> Option<Seq<char>> {
        find_file(self.files, project, path)
    }

    /// The user of that name.
    pub open spec fn user(self, username: Seq<char>) -> Option<IdentityView> {
        find_user(self.users, username)
    }

    /// What an entry under `key` has to hold to agree with the tables. The
    /// counters live in the cache alone and agree with anything.
    pub open spec fn agrees(self, key: CacheKeyView, value: CacheValueView) -> bool {
        match key {
            CacheKeyView::Project(name) => value matches CacheValueView::Snapshot(p)
                && self.project(name) == Some(p),
            CacheKeyView::OwnerPage(owner, offset) => value == CacheValueView::Page(
                spec_page(self.projects, owner, offset as int),
            ),
            CacheKeyView::Path(name, path) => value matches CacheValueView::Content(c)
                && self.file(name, path) == Some(c),
            CacheKeyView::Requests(_) => value is Count,
            CacheKeyView::Favorites(_) => value is Count,
        }
    }

    /// Every entry of the cache agrees with the tables: the cache never holds
    /// what the tables do not.
    pub open spec fn coherent(self) -> bool {
        forall|key: CacheKeyView| #[trigger]
            self.cache.contains_key(key) ==> self.agrees(key, self.cache[key])
    }

    /// The invariants of the tables: names and paths are unique, every name is
    /// one a project may bear, every path begins with `/`, and every file
    /// belongs to a project.
    pub open spec fn tables_wf(self) -> bool {
        &&& unique_projects(self.projects)
        &&& unique_files(self.files)
        &&& unique_users(self.users)
        &&& unique_favorites(self.favorites)
        &&& forall|i: int|
            0 <= i < self.projects.len() ==> spec_valid_name((#[trigger] self.projects[i]).name)
        &&& forall|i: int|
            0 <= i < self.files.len() ==> "/"@.is_prefix_of((#[trigger] self.files[i]).path)
        &&& forall|i: int|
            0 <= i < self.files.len() ==> has_project(
                self.projects,
                (#[trigger] self.files[i]).project,
            )
    }

    /// The store is well-formed: its tables keep their invariants, and its
    /// cache agrees with them.
    pub open spec fn wf(self) -> bool {
        self.tables_wf() && self.coherent()
    }

    /// The requests that the project has served in the running count.
    pub open spec fn usage(self, name: Seq<char>) -> i64 {
        crate::cache::spec_count(self.cache, CacheKeyView::Requests(name))
    }

    /// The number of users who marked the project, as the cache counts them.
    pub open spec fn favorite_count(self, name: Seq<char>) -> i64 {
        crate::cache::spec_count(self.cache, CacheKeyView::Favorites(name))
    }

    /// The state with the record of the project `name` brought into the cache.
    pub open spec fn warmed(self, name: Seq<char>) -> DbView {
        match self.project(name) {
            Some(p) => DbView {
                cache: self.cache.insert(CacheKeyView::Project(name), CacheValueView::Snapshot(p)),
                ..self
            },
            None => self,
        }
    }
}

/// In a table with unique names, the row that bears a name is the project of
/// that name.
pub proof fn lemma_project_found(rows: Seq<ProjectView>, name: Seq<char>, i: int)
    requires
        unique_projects(rows),
        project_at(rows, name, i),
    ensures
        find_project(rows, name) == Some(rows[i]),
{
    lemma_found(rows, project_name(), name, i);
}

/// In a table with unique paths, the row under a path holds the content of the
/// file.
pub proof fn lemma_file_found(rows: Seq<FileView>, project: Seq<char>, path: Seq<char>, i: int)
    requires
        unique_files(rows),
        file_at(rows, project, path, i),
    ensures
        find_file(rows, project, path) == Some(rows[i].content),
{
    lemma_found(rows, file_key(), (project, path), i);
}

/// In a table with unique names, the row that bears a name is the user of that
/// name.
pub proof fn lemma_user_found(rows: Seq<IdentityView>, username: Seq<char>, i: int)
    requires
        unique_users(rows),
        user_at(rows, username, i),
    ensures
        find_user(rows, username) == Some(rows[i]),
{
    lemma_found(rows, user_name(), username, i);
}

/// Bringing a record into the cache keeps the state well-formed.
pub proof fn lemma_warmed_wf(s: DbView, name: Seq<char>)
    requires
        s.wf(),
    ensures
        s.warmed(name).wf(),
{
    let t = s.warmed(name);
    assert forall|key: CacheKeyView| #[trigger] t.cache.contains_key(key) implies t.agrees(
        key,
        t.cache[key],
    ) by {
        if s.cache.contains_key(key) {
            assert(s.agrees(key, s.cache[key]));
        }
    }
}

} // verus!
