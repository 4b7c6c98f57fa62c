//! The store: its tables, its cache, and the users it knows.

use vstd::prelude::*;
use vstd::string::*;
use crate::cache::{Cache, CacheKey, CacheKeyView, CachePrefix, CacheValue, CacheValueView, held};
use crate::identity::{can_manage, Identity, IdentityView, spec_can_manage};
use crate::model::{
    FavoriteView, FileView, Project, ProjectFavoriteLog, ProjectFile, ProjectView,
    text_option_view,
};
use crate::names::{spec_valid_name, valid_name};
use crate::outcome::{DefaultReturn, Failure};
use crate::rows::{
    find_row, has_row, lemma_filter_push, lemma_found, lemma_push, lemma_replace, row_at,
    unique_rows,
};
use crate::state::{
    brief, DbView, favorite_at, favorite_key, file_at, file_key, has_file, has_project, has_user,
    is_favorite, lemma_project_found, lemma_user_found, lemma_warmed_wf, outside_project,
    project_at, project_name, user_at, user_name,
};
use crate::steps::{
    carried, lemma_created_wf, lemma_deleted_wf, lemma_file_dropped_wf, lemma_file_moved_wf,
    lemma_file_put_wf, lemma_renamed_wf, lemma_replaced_wf, lemma_touched_wf,
};
use crate::text::{contains, same_text, spec_contains, starts_with};
use crate::weights::{by_weight, rises, sort_by_keys};

verus! {

/// The rows of the projects, each by its view.
pub open spec fn project_views(rows: Seq<Project>) -> Seq<ProjectView> {
    rows.map_values(|p: Project| p@)
}

/// The rows of the files, each by its view.
pub open spec fn file_views(rows: Seq<ProjectFile>) -> Seq<FileView> {
    rows.map_values(|f: ProjectFile| f@)
}

/// The records of the favorite ledger, each by its view.
pub open spec fn favorite_views(rows: Seq<ProjectFavoriteLog>) -> Seq<FavoriteView> {
    rows.map_values(|f: ProjectFavoriteLog| f@)
}

/// The users the store knows, each by their view.
pub open spec fn identity_views(rows: Seq<Identity>) -> Seq<IdentityView> {
    rows.map_values(|u: Identity| u@)
}

/// The store. Its fields are reached through its operations alone, so a
/// store that was made by `new` is well-formed for good.
pub struct Database {
    pub(crate) projects: Vec<Project>,
    pub(crate) files: Vec<ProjectFile>,
    pub(crate) favorites: Vec<ProjectFavoriteLog>,
    pub(crate) users: Vec<Identity>,
    pub(crate) cache: Cache,
}

impl View for Database {
    type V = DbView;

    open(crate) spec fn view(&self) -> DbView {
        DbView {
            projects: project_views(self.projects@),
            files: file_views(self.files@),
            favorites: favorite_views(self.favorites@),
            users: identity_views(self.users@),
            cache: self.cache@,
        }
    }
}

/// What a lookup of a project answers with.
pub open spec fn project_answer(found: Option<ProjectView>, r: DefaultReturn<Option<Project>>)
    -> bool {
    match found {
        Some(p) => {
            &&& r.succeeded("Project exists"@)
            &&& r.payload matches Some(q)
            &&& q@ == p
        },
        None => r.failed(Failure::ProjectMissing) && r.payload is None,
    }
}

impl Database {
    /// Whether the store is well-formed.
    pub open spec fn wf(&self) -> bool {
        self@.wf()
    }

    /// A store without projects, files, users or cache entries.
    pub fn new() -> (r: Self)
        ensures
            r.wf(),
            r@.projects.len() == 0,
            r@.files.len() == 0,
            r@.favorites.len() == 0,
            r@.users.len() == 0,
            r@.cache == Map::<CacheKeyView, CacheValueView>::empty(),
    {
        Database {
            projects: Vec::new(),
            files: Vec::new(),
            favorites: Vec::new(),
            users: Vec::new(),
            cache: Cache::new(),
        }
    }

    /// The row of the project of that name.
    pub(crate) fn project_position(&self, name: &str) -> (r: Option<usize>)
        ensures
            match r {
                Some(i) => project_at(self@.projects, name@, i as int),
                None => !has_project(self@.projects, name@),
            },
    {
        let n: usize = self.projects.len();
        let mut i: usize = 0;
        while i < n
            invariant
                n == self.projects@.len(),
                i <= n,
                forall|j: int| 0 <= j < i ==> !row_at(self@.projects, project_name(), name@, j),
            decreases n - i,
        {
            if same_text(self.projects[i].name.as_str(), name) {
                return Some(i);
            }
            i += 1;
        }
        None
    }

    /// The row of the file of that project under that path.
    pub(crate) fn file_position(&self, project: &str, path: &str) -> (r: Option<usize>)
        ensures
            match r {
                Some(i) => file_at(self@.files, project@, path@, i as int),
                None => !has_file(self@.files, project@, path@),
            },
    {
        let n: usize = self.files.len();
        let mut i: usize = 0;
        while i < n
            invariant
                n == self.files@.len(),
                i <= n,
                forall|j: int| 0 <= j < i ==> !row_at(self@.files, file_key(), (project@, path@), j),
            decreases n - i,
        {
            if same_text(self.files[i].project.as_str(), project) && same_text(
                self.files[i].path.as_str(),
                path,
            ) {
                return Some(i);
            }
            i += 1;
        }
        None
    }

    /// The row of the user of that name.
    pub(crate) fn user_position(&self, username: &str) -> (r: Option<usize>)
        ensures
            match r {
                Some(i) => user_at(self@.users, username@, i as int),
                None => !has_user(self@.users, username@),
            },
    {
        let n: usize = self.users.len();
        let mut i: usize = 0;
        while i < n
            invariant
                n == self.users@.len(),
                i <= n,
                forall|j: int| 0 <= j < i ==> !row_at(self@.users, user_name(), username@, j),
            decreases n - i,
        {
            if same_text(self.users[i].username.as_str(), username) {
                return Some(i);
            }
            i += 1;
        }
        None
    }

    /// The row that records that the user marked the project.
    pub(crate) fn favorite_position(&self, user: &str, project: &str) -> (r: Option<usize>)
        ensures
            match r {
                Some(i) => favorite_at(self@.favorites, user@, project@, i as int),
                None => !is_favorite(self@.favorites, user@, project@),
            },
    {
        let n: usize = self.favorites.len();
        let mut i: usize = 0;
        while i < n
            invariant
                n == self.favorites@.len(),
                i <= n,
                forall|j: int|
                    0 <= j < i ==> !row_at(self@.favorites, favorite_key(), (user@, project@), j),
            decreases n - i,
        {
            if same_text(self.favorites[i].user.as_str(), user) && same_text(
                self.favorites[i].project.as_str(),
                project,
            ) {
                return Some(i);
            }
            i += 1;
        }
        None
    }

    /// What the store knows of a user.
    pub fn get_user_by_username(&self, username: &str) -> (r: Option<Identity>)
        requires
            self.wf(),
        ensures
            match r {
                Some(u) => self@.user(username@) == Some(u@),
                None => self@.user(username@) is None,
            },
    {
        match self.user_position(username) {
            Some(i) => {
                proof {
                    lemma_user_found(self@.users, username@, i as int);
                }
                Some(self.users[i].clone())
            },
            None => None,
        }
    }

    /// Makes a user known to the store, or replaces what it knew of them.
    pub fn put_user(&mut self, user: Identity)
        requires
            old(self).wf(),
        ensures
            final(self).wf(),
            final(self)@.user(user@.username) == Some(user@),
            forall|other: Seq<char>|
                other != user@.username ==> final(self)@.user(other) == old(self)@.user(other),
            final(self)@.projects == old(self)@.projects,
            final(self)@.files == old(self)@.files,
            final(self)@.favorites == old(self)@.favorites,
            final(self)@.cache == old(self)@.cache,
    {
        let ghost before = self@.users;
        match self.user_position(user.username.as_str()) {
            Some(i) => {
                proof {
                    assert forall|j: int| 0 <= j < before.len() && j != i implies user_name()(
                        #[trigger] before[j],
                    ) != user_name()(user@) by {
                        assert(user_name()(before[i as int]) == user@.username);
                    }
                    lemma_replace(before, user_name(), i as int, user@);
                }
                self.users[i] = user;
                assert(self@.users =~= before.update(i as int, user@));
            },
            None => {
                proof {
                    lemma_push(before, user_name(), user@);
                }
                self.users.push(user);
                assert(self@.users =~= before.push(user@));
            },
        }
        proof {
            assert(self@.projects == old(self)@.projects);
            assert forall|other: Seq<char>| other != user@.username implies self@.user(other)
                == old(self)@.user(other) by {
                let _ = find_row(self@.users, user_name(), other);
            }
            let _ = find_row(self@.users, user_name(), user@.username);
            assert forall|key: CacheKeyView| #[trigger]
                self@.cache.contains_key(key) implies self@.agrees(key, self@.cache[key]) by {
                assert(old(self)@.agrees(key, old(self)@.cache[key]));
            }
        }
    }

    /// Looks a project up: in the cache first, then in the table, from where
    /// its record is brought into the cache.
    pub fn get_project_by_id(&mut self, name: String) -> (r: DefaultReturn<Option<Project>>)
        requires
            old(self).wf(),
        ensures
            final(self).wf(),
            final(self)@ == old(self)@.warmed(name@),
            project_answer(old(self)@.project(name@), r),
    {
        proof {
            lemma_warmed_wf(self@, name@);
        }
        let key = CacheKey::Project(name.clone());
        match self.cache.get(&key) {
            Some(CacheValue::Snapshot(p)) => {
                proof {
                    assert(self@.cache.contains_key(key@));
                    assert(self@.agrees(key@, self@.cache[key@]));
                    assert(self@.cache.insert(key@, self@.cache[key@]) =~= self@.cache);
                }
                return DefaultReturn::ok(String::from_str("Project exists"), Some(p));
            },
            Some(_) => {
                proof {
                    assert(self@.cache.contains_key(key@));
                    assert(self@.agrees(key@, self@.cache[key@]));
                }
                return DefaultReturn::fail(Failure::ProjectMissing, None);
            },
            None => {},
        }
        match self.project_position(name.as_str()) {
            Some(i) => {
                proof {
                    lemma_project_found(self@.projects, name@, i as int);
                }
                let p = self.projects[i].clone();
                self.cache.set(key, CacheValue::Snapshot(p.clone()));
                DefaultReturn::ok(String::from_str("Project exists"), Some(p))
            },
            None => DefaultReturn::fail(Failure::ProjectMissing, None),
        }
    }
}

impl Database {
    /// Puts `p` in the place of row `i`, which bears the same name.
    pub(crate) fn replace_project(&mut self, i: usize, p: Project)
        requires
            old(self).wf(),
            i < old(self)@.projects.len(),
            p@.name == old(self)@.projects[i as int].name,
        ensures
            final(self).wf(),
            final(self)@ == old(self)@.replaced(i as int, p@),
    {
        proof {
            lemma_replaced_wf(self@, i as int, p@);
        }
        let old_owner = self.projects[i].owner.clone();
        self.cache.remove_starting_with(&CachePrefix::OwnerPages(old_owner));
        self.cache.remove_starting_with(&CachePrefix::OwnerPages(p.owner.clone()));
        self.cache.set(CacheKey::Project(p.name.clone()), CacheValue::Snapshot(p.clone()));
        self.projects[i] = p;
        assert(self@.projects =~= old(self)@.projects.update(i as int, p@));
    }

    /// Puts `p` in the place of row `i`, which shows in listings as `p` does.
    pub(crate) fn touch_project(&mut self, i: usize, p: Project)
        requires
            old(self).wf(),
            i < old(self)@.projects.len(),
            brief(p@) == brief(old(self)@.projects[i as int]),
        ensures
            final(self).wf(),
            final(self)@ == old(self)@.touched(i as int, p@),
    {
        proof {
            lemma_touched_wf(self@, i as int, p@);
        }
        self.cache.update(CacheKey::Project(p.name.clone()), CacheValue::Snapshot(p.clone()));
        self.projects[i] = p;
        assert(self@.projects =~= old(self)@.projects.update(i as int, p@));
    }

    /// Adds a project under a name that is free.
    pub(crate) fn add_project(&mut self, p: Project)
        requires
            old(self).wf(),
            spec_valid_name(p@.name),
            old(self)@.project(p@.name) is None,
        ensures
            final(self).wf(),
            final(self)@ == old(self)@.created(p@),
    {
        proof {
            lemma_created_wf(self@, p@);
        }
        self.cache.remove_starting_with(&CachePrefix::OwnerPages(p.owner.clone()));
        self.projects.push(p);
        assert(self@.projects =~= old(self)@.projects.push(p@));
    }

    /// Hands every file of the project `from` to the project `to`.
    fn carry_files(&mut self, from: &str, to: &str)
        ensures
            final(self)@.files == old(self)@.files.map_values(carried(from@, to@)),
            final(self)@.projects == old(self)@.projects,
            final(self)@.users == old(self)@.users,
            final(self)@.favorites == old(self)@.favorites,
            final(self)@.cache == old(self)@.cache,
    {
        let ghost before = self@.files;
        let n: usize = self.files.len();
        let mut j: usize = 0;
        while j < n
            invariant
                n == self.files@.len(),
                n == before.len(),
                j <= n,
                self@.projects == old(self)@.projects,
                self@.users == old(self)@.users,
                self@.favorites == old(self)@.favorites,
                self@.cache == old(self)@.cache,
                forall|k: int| 0 <= k < j ==> self@.files[k] == carried(from@, to@)(before[k]),
                forall|k: int| j <= k < n ==> self@.files[k] == before[k],
            decreases n - j,
        {
            let ghost prev = self@.files;
            if same_text(self.files[j].project.as_str(), from) {
                self.files[j].project = String::from_str(to);
                assert(self@.files =~= prev.update(
                    j as int,
                    FileView { project: to@, ..prev[j as int] },
                ));
            }
            assert(self@.files[j as int] == carried(from@, to@)(before[j as int]));
            j += 1;
        }
        assert(self@.files =~= before.map_values(carried(from@, to@)));
    }

    /// Takes every file of the project out of the table.
    fn drop_files(&mut self, name: &str)
        ensures
            final(self)@.files == old(self)@.files.filter(outside_project(name@)),
            final(self)@.projects == old(self)@.projects,
            final(self)@.users == old(self)@.users,
            final(self)@.favorites == old(self)@.favorites,
            final(self)@.cache == old(self)@.cache,
    {
        let ghost all = self@.files;
        let ghost keep = outside_project(name@);
        let ghost done: int = 0;
        let mut i: usize = 0;
        assert(all.take(0).filter(keep) =~= Seq::empty()) by {
            reveal(Seq::filter);
        }
        assert(all.skip(0) =~= all);
        while i < self.files.len()
            invariant
                keep == outside_project(name@),
                0 <= done <= all.len(),
                i <= self.files@.len(),
                self@.projects == old(self)@.projects,
                self@.users == old(self)@.users,
                self@.favorites == old(self)@.favorites,
                self@.cache == old(self)@.cache,
                self@.files.take(i as int) == all.take(done).filter(keep),
                self@.files.skip(i as int) == all.skip(done),
            decreases self.files@.len() - i,
        {
            let ghost now = self@.files;
            assert(now.skip(i as int).len() == now.len() - i);
            assert(all.skip(done).len() == all.len() - done);
            assert(now[i as int] == now.skip(i as int)[0]);
            assert(all[done] == all.skip(done)[0]);
            assert(all.take(done + 1) =~= all.take(done).push(all[done]));
            proof {
                lemma_filter_push(all.take(done), keep, all[done]);
            }
            if same_text(self.files[i].project.as_str(), name) {
                self.files.remove(i);
                assert(self@.files =~= now.remove(i as int));
                assert(self@.files.take(i as int) =~= now.take(i as int));
                assert(now.remove(i as int).skip(i as int) =~= now.skip(i as int).skip(1));
                assert(all.skip(done + 1) =~= all.skip(done).skip(1));
            } else {
                assert(now.take(i + 1) =~= now.take(i as int).push(now[i as int]));
                assert(now.skip(i + 1) =~= now.skip(i as int).skip(1));
                assert(all.skip(done + 1) =~= all.skip(done).skip(1));
                i += 1;
            }
            proof {
                done = done + 1;
            }
        }
        proof {
            let now = self@.files;
            assert(now.take(i as int) =~= now);
            assert(now.skip(i as int).len() == 0);
            assert(all.take(done) =~= all);
        }
    }

    /// Puts `p`, which bears a new name, in the place of row `i`.
    pub(crate) fn rename_project(&mut self, i: usize, p: Project, editor: &str)
        requires
            old(self).wf(),
            i < old(self)@.projects.len(),
            p@.name != old(self)@.projects[i as int].name,
            spec_valid_name(p@.name),
            old(self)@.project(p@.name) is None,
        ensures
            final(self).wf(),
            final(self)@ == old(self)@.renamed(i as int, p@, editor@),
    {
        proof {
            lemma_renamed_wf(self@, i as int, p@, editor@);
        }
        let old_name = self.projects[i].name.clone();
        let old_owner = self.projects[i].owner.clone();
        self.carry_files(old_name.as_str(), p.name.as_str());
        self.cache.remove(&CacheKey::Project(old_name.clone()));
        self.cache.remove_starting_with(&CachePrefix::ProjectPaths(old_name));
        self.cache.remove_starting_with(&CachePrefix::OwnerPages(old_owner));
        self.cache.remove_starting_with(&CachePrefix::OwnerPages(p.owner.clone()));
        self.cache.remove_starting_with(&CachePrefix::OwnerPages(String::from_str(editor)));
        self.cache.set(CacheKey::Project(p.name.clone()), CacheValue::Snapshot(p.clone()));
        self.projects[i] = p;
        assert(self@.projects =~= old(self)@.projects.update(i as int, p@));
    }

    /// Deletes row `i` of the projects with all its files.
    pub(crate) fn remove_project(&mut self, i: usize, deleter: &str)
        requires
            old(self).wf(),
            i < old(self)@.projects.len(),
        ensures
            final(self).wf(),
            final(self)@ == old(self)@.deleted(i as int, deleter@),
    {
        proof {
            lemma_deleted_wf(self@, i as int, deleter@);
        }
        let gone = self.projects.remove(i);
        assert(self@.projects =~= old(self)@.projects.remove(i as int));
        self.drop_files(gone.name.as_str());
        self.cache.remove(&CacheKey::Project(gone.name.clone()));
        self.cache.remove_starting_with(&CachePrefix::ProjectPaths(gone.name));
        self.cache.remove_starting_with(&CachePrefix::OwnerPages(gone.owner));
        self.cache.remove_starting_with(&CachePrefix::OwnerPages(String::from_str(deleter)));
    }

    /// Writes a file of a project that exists.
    pub(crate) fn put_file(&mut self, name: &str, path: &str, content: String)
        requires
            old(self).wf(),
            has_project(old(self)@.projects, name@),
            "/"@.is_prefix_of(path@),
        ensures
            final(self).wf(),
            final(self)@ == old(self)@.file_put(name@, path@, content@),
    {
        proof {
            lemma_file_put_wf(self@, name@, path@, content@);
        }
        self.cache.set(
            CacheKey::Path(String::from_str(name), String::from_str(path)),
            CacheValue::Content(content.clone()),
        );
        let row = ProjectFile {
            project: String::from_str(name),
            path: String::from_str(path),
            content,
        };
        match self.file_position(name, path) {
            Some(i) => {
                proof {
                    lemma_found(self@.files, file_key(), (name@, path@), i as int);
                    lemma_found(
                        self@.files,
                        file_key(),
                        (name@, path@),
                        self@.file_index(name@, path@),
                    );
                }
                self.files[i] = row;
                assert(self@.files =~= old(self)@.files.update(i as int, row@));
            },
            None => {
                self.files.push(row);
                assert(self@.files =~= old(self)@.files.push(row@));
            },
        }
    }

    /// Deletes a file, if there is one under that path.
    pub(crate) fn drop_file(&mut self, name: &str, path: &str)
        requires
            old(self).wf(),
        ensures
            final(self).wf(),
            final(self)@ == old(self)@.file_dropped(name@, path@),
    {
        proof {
            lemma_file_dropped_wf(self@, name@, path@);
        }
        self.cache.remove(&CacheKey::Path(String::from_str(name), String::from_str(path)));
        match self.file_position(name, path) {
            Some(i) => {
                proof {
                    lemma_index_is(self@.files, file_key(), (name@, path@), i as int);
                }
                self.files.remove(i);
                assert(self@.files =~= old(self)@.files.remove(i as int));
            },
            None => {},
        }
    }

    /// Moves a file from one path to another.
    pub(crate) fn move_file(&mut self, name: &str, from: &str, to: &str)
        requires
            old(self).wf(),
            "/"@.is_prefix_of(to@),
        ensures
            final(self).wf(),
            final(self)@ == old(self)@.file_moved(name@, from@, to@),
    {
        proof {
            lemma_file_moved_wf(self@, name@, from@, to@);
        }
        if same_text(from, to) || self.file_position(name, from).is_none() {
            self.cache.remove(&CacheKey::Path(String::from_str(name), String::from_str(from)));
            return ;
        }
        self.drop_file(name, to);
        self.cache.remove(&CacheKey::Path(String::from_str(name), String::from_str(from)));
        match self.file_position(name, from) {
            Some(i) => {
                proof {
                    lemma_index_is(self@.files, file_key(), (name@, from@), i as int);
                }
                let ghost before = self@.files;
                self.files[i].path = String::from_str(to);
                assert(self@.files =~= before.update(
                    i as int,
                    FileView { path: to@, ..before[i as int] },
                ));
            },
            None => {
                proof {
                    let s = old(self)@;
                    let c = s.file_dropped(name@, to@);
                    lemma_file_dropped_wf(s, name@, to@);
                    assert((name@, from@) != (name@, to@));
                    assert(c.file(name@, from@) == s.file(name@, from@));
                    assert(has_row(s.files, file_key(), (name@, from@)));
                    assert(self@.files == c.files);
                    assert(false);
                }
            },
        }
    }
}

/// In a table with unique keys, the index chosen for a key is the index of
/// the row that bears it.
pub proof fn lemma_index_is<T, K>(rows: Seq<T>, key_of: spec_fn(T) -> K, key: K, i: int)
    requires
        unique_rows(rows, key_of),
        row_at(rows, key_of, key, i),
    ensures
        (choose|j: int| row_at(rows, key_of, key, j)) == i,
{
    let j = choose|j: int| row_at(rows, key_of, key, j);
    assert(key_of(rows[i]) == key_of(rows[j]));
}

/// The editor behind a request: the user that `edit_as` names, where the
/// store knows them.
pub open spec fn spec_editor(s: DbView, edit_as: Option<Seq<char>>) -> Option<IdentityView> {
    match edit_as {
        Some(u) => s.user(u),
        None => None,
    }
}

/// What is asked before every change to a project or its files: the editor is
/// known, and is the owner or an administrator.
pub open spec fn spec_permit(s: DbView, owner: Seq<char>, edit_as: Option<Seq<char>>) -> Option<
    Failure,
> {
    match spec_editor(s, edit_as) {
        None => Some(Failure::EditorRequired),
        Some(editor) => if spec_can_manage(editor, owner) {
            None
        } else {
            Some(Failure::NotPermitted)
        },
    }
}

/// Why a change to the project `name` or to its files is refused, if it is.
pub open spec fn spec_edit_refusal(s: DbView, name: Seq<char>, edit_as: Option<Seq<char>>)
    -> Option<Failure> {
    match s.project(name) {
        None => Some(Failure::ProjectMissing),
        Some(p) => spec_permit(s, p.owner, edit_as),
    }
}

impl Database {
    /// The editor behind a request.
    pub fn editor(&self, edit_as: &Option<String>) -> (r: Option<Identity>)
        requires
            self.wf(),
        ensures
            match r {
                Some(u) => spec_editor(self@, text_option_view(*edit_as)) == Some(u@),
                None => spec_editor(self@, text_option_view(*edit_as)) is None,
            },
    {
        match edit_as {
            Some(u) => self.get_user_by_username(u.as_str()),
            None => None,
        }
    }

    /// Why the editor may not change a project of this owner, if they may not.
    pub fn permit(&self, owner: &str, edit_as: &Option<String>) -> (r: Option<Failure>)
        requires
            self.wf(),
        ensures
            r == spec_permit(self@, owner@, text_option_view(*edit_as)),
    {
        match self.editor(edit_as) {
            None => Some(Failure::EditorRequired),
            Some(editor) => if can_manage(&editor, owner) {
                None
            } else {
                Some(Failure::NotPermitted)
            },
        }
    }
}

/// The most rows a query brings back that names no limit of its own.
pub open spec fn spec_limit_clause() -> Seq<char> {
    " LIMIT 1000"@
}

/// The query as it is run: nothing is run for an empty query, and a query
/// without the word `LIMIT` is held to 1000 rows.
pub open spec fn spec_limited_query(query: Seq<char>) -> Option<Seq<char>> {
    if query.len() == 0 {
        None
    } else if spec_contains(query, "LIMIT"@) {
        Some(query)
    } else {
        Some(query + spec_limit_clause())
    }
}

/// Holds a query to 1000 rows, unless it names a limit itself.
pub fn limited_query(query: String) -> (r: Option<String>)
    ensures
        text_option_view(r) == spec_limited_query(query@),
{
    if query.as_str().unicode_len() == 0 {
        None
    } else if contains(query.as_str(), "LIMIT") {
        Some(query)
    } else {
        Some(query.concat(" LIMIT 1000"))
    }
}

/// Rows that a store can be made of: they keep the invariants of the tables.
pub open spec fn loadable(
    projects: Seq<ProjectView>,
    files: Seq<FileView>,
    favorites: Seq<FavoriteView>,
) -> bool {
    (DbView {
        projects,
        files,
        favorites,
        users: Seq::empty(),
        cache: Map::empty(),
    }).tables_wf()
}

impl Database {
    /// The rows of the projects, in the order of the table.
    pub fn projects(&self) -> (r: Vec<Project>)
        ensures
            project_views(r@) == self@.projects,
    {
        let mut out: Vec<Project> = Vec::new();
        let n: usize = self.projects.len();
        let mut i: usize = 0;
        while i < n
            invariant
                n == self.projects@.len(),
                i <= n,
                out@ == self.projects@.take(i as int),
            decreases n - i,
        {
            out.push(self.projects[i].clone());
            assert(self.projects@.take(i + 1) =~= self.projects@.take(i as int).push(
                self.projects@[i as int],
            ));
            i += 1;
        }
        assert(self.projects@.take(n as int) =~= self.projects@);
        out
    }

    /// The rows of the files, in the order of the table.
    pub fn files(&self) -> (r: Vec<ProjectFile>)
        ensures
            file_views(r@) == self@.files,
    {
        let mut out: Vec<ProjectFile> = Vec::new();
        let n: usize = self.files.len();
        let mut i: usize = 0;
        while i < n
            invariant
                n == self.files@.len(),
                i <= n,
                out@ == self.files@.take(i as int),
            decreases n - i,
        {
            out.push(self.files[i].clone());
            assert(self.files@.take(i + 1) =~= self.files@.take(i as int).push(
                self.files@[i as int],
            ));
            i += 1;
        }
        assert(self.files@.take(n as int) =~= self.files@);
        out
    }

    /// The records of the favorite ledger, in the order of the table.
    pub fn favorites(&self) -> (r: Vec<ProjectFavoriteLog>)
        ensures
            favorite_views(r@) == self@.favorites,
    {
        let mut out: Vec<ProjectFavoriteLog> = Vec::new();
        let n: usize = self.favorites.len();
        let mut i: usize = 0;
        while i < n
            invariant
                n == self.favorites@.len(),
                i <= n,
                out@ == self.favorites@.take(i as int),
            decreases n - i,
        {
            out.push(self.favorites[i].clone());
            assert(self.favorites@.take(i + 1) =~= self.favorites@.take(i as int).push(
                self.favorites@[i as int],
            ));
            i += 1;
        }
        assert(self.favorites@.take(n as int) =~= self.favorites@);
        out
    }

    /// Makes a store of rows that were kept elsewhere. There is none to be
    /// made of rows that break an invariant of the tables. The store knows no
    /// user yet, and its cache is empty.
    pub fn load(
        projects: Vec<Project>,
        files: Vec<ProjectFile>,
        favorites: Vec<ProjectFavoriteLog>,
    ) -> (r: Option<Database>)
        ensures
            r is Some <==> loadable(
                project_views(projects@),
                file_views(files@),
                favorite_views(favorites@),
            ),
            r matches Some(db) ==> {
                &&& db.wf()
                &&& db@.projects == project_views(projects@)
                &&& db@.files == file_views(files@)
                &&& db@.favorites == favorite_views(favorites@)
                &&& db@.users.len() == 0
                &&& db@.cache == Map::<CacheKeyView, CacheValueView>::empty()
            },
    {
        let ghost ps = project_views(projects@);
        let ghost fs = file_views(files@);
        let ghost vs = favorite_views(favorites@);
        let mut db = Database::new();
        let n: usize = projects.len();
        let mut i: usize = 0;
        assert(ps.take(0) =~= db@.projects);
        while i < n
            invariant
                n == projects@.len(),
                ps == project_views(projects@),
                fs == file_views(files@),
                vs == favorite_views(favorites@),
                i <= n,
                db.wf(),
                db@.projects == ps.take(i as int),
                db@.files.len() == 0,
                db@.favorites.len() == 0,
                db@.users.len() == 0,
            decreases n - i,
        {
            let p = projects[i].clone();
            assert(p@ == ps[i as int]);
            if !valid_name(p.name.as_str()) {
                return None;
            }
            match db.project_position(p.name.as_str()) {
                Some(j) => {
                    proof {
                        assert(ps.take(i as int)[j as int] == ps[j as int]);
                        if loadable(ps, fs, vs) {
                            assert(project_name()(ps[j as int]) == project_name()(ps[i as int]));
                        }
                    }
                    return None;
                },
                None => {},
            }
            db.add_project(p);
            assert(ps.take(i + 1) =~= ps.take(i as int).push(ps[i as int]));
            i += 1;
        }
        assert(ps.take(n as int) =~= ps);
        let m: usize = files.len();
        let mut k: usize = 0;
        assert(fs.take(0) =~= db@.files);
        while k < m
            invariant
                m == files@.len(),
                ps == project_views(projects@),
                fs == file_views(files@),
                vs == favorite_views(favorites@),
                k <= m,
                db.wf(),
                db@.projects == ps,
                db@.files == fs.take(k as int),
                db@.favorites.len() == 0,
                db@.users.len() == 0,
            decreases m - k,
        {
            let f = files[k].clone();
            assert(f@ == fs[k as int]);
            if db.project_position(f.project.as_str()).is_none() || !starts_with(
                f.path.as_str(),
                "/",
            ) {
                proof {
                    let whole = DbView {
                        projects: ps,
                        files: fs,
                        favorites: vs,
                        users: Seq::empty(),
                        cache: Map::empty(),
                    };
                    if whole.tables_wf() {
                        assert(has_project(whole.projects, whole.files[k as int].project));
                        assert("/"@.is_prefix_of(whole.files[k as int].path));
                        assert(false);
                    }
                }
                return None;
            }
            match db.file_position(f.project.as_str(), f.path.as_str()) {
                Some(j) => {
                    proof {
                        assert(fs.take(k as int)[j as int] == fs[j as int]);
                        if loadable(ps, fs, vs) {
                            assert(file_key()(fs[j as int]) == file_key()(fs[k as int]));
                        }
                    }
                    return None;
                },
                None => {},
            }
            db.put_file(f.project.as_str(), f.path.as_str(), f.content);
            assert(db@.files =~= fs.take(k as int).push(fs[k as int]));
            assert(fs.take(k + 1) =~= fs.take(k as int).push(fs[k as int]));
            k += 1;
        }
        assert(fs.take(m as int) =~= fs);
        let q: usize = favorites.len();
        let mut t: usize = 0;
        assert(vs.take(0) =~= db@.favorites);
        while t < q
            invariant
                q == favorites@.len(),
                ps == project_views(projects@),
                fs == file_views(files@),
                vs == favorite_views(favorites@),
                t <= q,
                db.wf(),
                db@.projects == ps,
                db@.files == fs,
                db@.favorites == vs.take(t as int),
                db@.users.len() == 0,
            decreases q - t,
        {
            let v = favorites[t].clone();
            assert(v@ == vs[t as int]);
            match db.favorite_position(v.user.as_str(), v.project.as_str()) {
                Some(j) => {
                    proof {
                        assert(vs.take(t as int)[j as int] == vs[j as int]);
                        if loadable(ps, fs, vs) {
                            assert(favorite_key()(vs[j as int]) == favorite_key()(vs[t as int]));
                        }
                    }
                    return None;
                },
                None => {},
            }
            proof {
                crate::steps::lemma_favorite_added_wf(db@, v@.user, v@.project);
            }
            db.favorites.push(v);
            assert(db@.favorites =~= vs.take(t as int).push(vs[t as int]));
            assert(vs.take(t + 1) =~= vs.take(t as int).push(vs[t as int]));
            t += 1;
        }
        assert(vs.take(q as int) =~= vs);
        proof {
            crate::steps::lemma_uncached_wf(db@, Map::empty());
        }
        db.cache = Cache::new();
        assert(db@.users =~= Seq::empty());
        Some(db)
    }
}

impl Database {
    /// Puts the columns of a row in order for display: by the weight of
    /// their names.
    pub fn sort_hashmap_by_keys<T>(&self, row: Vec<(String, T)>) -> (r: Vec<(String, T)>)
        ensures
            r@ == by_weight(row@),
            rises(r@),
            r@.to_multiset() == row@.to_multiset(),
    {
        sort_by_keys(row)
    }
}

impl Database {
    /// What the cache holds under a key, without a look at the tables.
    pub fn cached(&self, key: &CacheKey) -> (r: Option<CacheValue>)
        ensures
            match r {
                Some(v) => held(self@.cache, key@) == Some(v@),
                None => held(self@.cache, key@) is None,
            },
    {
        self.cache.get(key)
    }
}

impl Database {
    /// Drops all that the cache holds, as a cache does that was restarted.
    /// The tables are the source of truth, so the store stays well-formed;
    /// the counters, which live in the cache alone, begin anew.
    pub fn flush_cache(&mut self)
        requires
            old(self).wf(),
        ensures
            final(self).wf(),
            final(self)@ == (DbView { cache: Map::empty(), ..old(self)@ }),
    {
        proof {
            crate::steps::lemma_uncached_wf(self@, Map::empty());
        }
        self.cache = Cache::new();
    }
}

} // verus!
