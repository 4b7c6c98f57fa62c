//! The changes of state that the operations of the store are made of, and
//! the proof that each of them keeps the store well-formed: whenever a row
//! changes, the cache entries that were copied from it are overwritten or
//! dropped in the same step.

use vstd::prelude::*;
use crate::cache::{CacheKeyView, CachePrefixView, CacheValueView};
use crate::model::{FavoriteView, FileView, ProjectView};
use crate::names::spec_valid_name;
use crate::rows::{
    find_row, has_row, lemma_filter, lemma_filter_push, lemma_filter_remove, lemma_filter_replace,
    lemma_found, lemma_push, lemma_remove, lemma_replace, row_at, unique_rows,
};
use crate::state::{
    brief, briefs, DbView, favorite_key, file_key, has_project, outside_project, owned_by,
    project_name, projects_of,
};

verus! {

/// The cache without the pages of an owner's listing.
pub open spec fn without_pages(
    cache: Map<CacheKeyView, CacheValueView>,
    owner: Seq<char>,
) -> Map<CacheKeyView, CacheValueView> {
    cache.remove_keys(CachePrefixView::OwnerPages(owner).keys())
}

/// The cache without the files of a project.
pub open spec fn without_paths(
    cache: Map<CacheKeyView, CacheValueView>,
    name: Seq<char>,
) -> Map<CacheKeyView, CacheValueView> {
    cache.remove_keys(CachePrefixView::ProjectPaths(name).keys())
}

/// What the tables say under `key` is the same in both states.
pub open spec fn same_truth(s: DbView, t: DbView, key: CacheKeyView) -> bool {
    match key {
        CacheKeyView::Project(name) => t.project(name) == s.project(name),
        CacheKeyView::OwnerPage(owner, _) => projects_of(t.projects, owner) == projects_of(
            s.projects,
            owner,
        ),
        CacheKeyView::Path(name, path) => t.file(name, path) == s.file(name, path),
        CacheKeyView::Requests(_) => true,
        CacheKeyView::Favorites(_) => true,
    }
}

/// An entry that agreed with the tables still does where the tables say the
/// same under its key.
pub proof fn lemma_agrees_kept(s: DbView, t: DbView, key: CacheKeyView, value: CacheValueView)
    requires
        s.agrees(key, value),
        same_truth(s, t, key),
    ensures
        t.agrees(key, value),
{
}

impl DbView {
    /// The state after row `i` of the projects was replaced by `p`, which
    /// bears the same name: the record in the cache is overwritten, and the
    /// listings of the old and the new owner are dropped.
    pub open spec fn replaced(self, i: int, p: ProjectView) -> DbView {
        DbView {
            projects: self.projects.update(i, p),
            cache: without_pages(without_pages(self.cache, self.projects[i].owner), p.owner).insert(
                CacheKeyView::Project(p.name),
                CacheValueView::Snapshot(p),
            ),
            ..self
        }
    }

    /// The state after row `i` of the projects was replaced by `p`, which
    /// shows in listings as the row did: the record in the cache is
    /// overwritten, and nothing is dropped.
    pub open spec fn touched(self, i: int, p: ProjectView) -> DbView {
        DbView {
            projects: self.projects.update(i, p),
            cache: self.cache.insert(CacheKeyView::Project(p.name), CacheValueView::Snapshot(p)),
            ..self
        }
    }

    /// The row of the project of that name.
    pub open spec fn project_index(self, name: Seq<char>) -> int {
        choose|i: int| row_at(self.projects, project_name(), name, i)
    }

    /// The state after a project was added under a name that was free: the
    /// listings of its owner are dropped.
    pub open spec fn created(self, p: ProjectView) -> DbView {
        DbView {
            projects: self.projects.push(p),
            cache: without_pages(self.cache, p.owner),
            ..self
        }
    }
}

/// A row replaced under its name leaves the store well-formed; the project is
/// found as it was put, and every other project as it was.
pub proof fn lemma_replaced_wf(s: DbView, i: int, p: ProjectView)
    requires
        s.wf(),
        0 <= i < s.projects.len(),
        p.name == s.projects[i].name,
    ensures
        s.replaced(i, p).wf(),
        s.replaced(i, p).project(p.name) == Some(p),
        forall|name: Seq<char>|
            name != p.name ==> #[trigger] s.replaced(i, p).project(name) == s.project(name),
{
    let t = s.replaced(i, p);
    let old_owner = s.projects[i].owner;
    assert forall|j: int| 0 <= j < s.projects.len() && j != i implies project_name()(
        #[trigger] s.projects[j],
    ) != project_name()(p) by {
        assert(project_name()(s.projects[i]) == p.name);
    }
    lemma_replace(s.projects, project_name(), i, p);
    assert forall|name: Seq<char>| name != p.name implies #[trigger] t.project(name) == s.project(
        name,
    ) by {
        let _ = find_row(t.projects, project_name(), name);
    }
    let _ = find_row(t.projects, project_name(), p.name);
    assert forall|j: int| 0 <= j < t.files.len() implies has_project(
        t.projects,
        (#[trigger] t.files[j]).project,
    ) by {
        let n = s.files[j].project;
        assert(has_project(s.projects, n));
        let k = choose|k: int| row_at(s.projects, project_name(), n, k);
        assert(row_at(t.projects, project_name(), n, k));
    }
    assert forall|j: int| 0 <= j < t.projects.len() implies spec_valid_name(
        (#[trigger] t.projects[j]).name,
    ) by {
        assert(spec_valid_name(s.projects[j].name));
    }
    assert forall|key: CacheKeyView| #[trigger] t.cache.contains_key(key) implies t.agrees(
        key,
        t.cache[key],
    ) by {
        if key != CacheKeyView::Project(p.name) {
            assert(s.cache.contains_key(key) && s.cache[key] == t.cache[key]);
            assert(s.agrees(key, s.cache[key]));
            match key {
                CacheKeyView::OwnerPage(owner, _) => {
                    assert(owner != old_owner && owner != p.owner);
                    assert(briefs(t.projects) =~= briefs(s.projects).update(i, brief(p)));
                    lemma_filter_replace(briefs(s.projects), owned_by(owner), i, brief(p));
                },
                CacheKeyView::Project(name) => {
                    assert(t.project(name) == s.project(name));
                },
                _ => {},
            }
            lemma_agrees_kept(s, t, key, s.cache[key]);
        }
    }
}

/// A row replaced by one that is listed alike leaves the store well-formed
/// without a listing being dropped.
pub proof fn lemma_touched_wf(s: DbView, i: int, p: ProjectView)
    requires
        s.wf(),
        0 <= i < s.projects.len(),
        brief(p) == brief(s.projects[i]),
    ensures
        s.touched(i, p).wf(),
        s.touched(i, p).project(p.name) == Some(p),
        forall|name: Seq<char>|
            name != p.name ==> #[trigger] s.touched(i, p).project(name) == s.project(name),
{
    let t = s.touched(i, p);
    assert forall|j: int| 0 <= j < s.projects.len() && j != i implies project_name()(
        #[trigger] s.projects[j],
    ) != project_name()(p) by {
        assert(project_name()(s.projects[i]) == p.name);
    }
    lemma_replace(s.projects, project_name(), i, p);
    assert forall|name: Seq<char>| name != p.name implies #[trigger] t.project(name) == s.project(
        name,
    ) by {
        let _ = find_row(t.projects, project_name(), name);
    }
    let _ = find_row(t.projects, project_name(), p.name);
    assert forall|j: int| 0 <= j < t.files.len() implies has_project(
        t.projects,
        (#[trigger] t.files[j]).project,
    ) by {
        let n = s.files[j].project;
        assert(has_project(s.projects, n));
        let k = choose|k: int| row_at(s.projects, project_name(), n, k);
        assert(row_at(t.projects, project_name(), n, k));
    }
    assert forall|j: int| 0 <= j < t.projects.len() implies spec_valid_name(
        (#[trigger] t.projects[j]).name,
    ) by {
        assert(spec_valid_name(s.projects[j].name));
    }
    assert(briefs(t.projects) =~= briefs(s.projects));
    assert forall|key: CacheKeyView| #[trigger] t.cache.contains_key(key) implies t.agrees(
        key,
        t.cache[key],
    ) by {
        if key != CacheKeyView::Project(p.name) {
            assert(s.cache.contains_key(key) && s.cache[key] == t.cache[key]);
            assert(s.agrees(key, s.cache[key]));
            match key {
                CacheKeyView::Project(name) => {
                    assert(t.project(name) == s.project(name));
                },
                _ => {},
            }
            lemma_agrees_kept(s, t, key, s.cache[key]);
        }
    }
}

/// A project added under a free name leaves the store well-formed; it is
/// found, and every other project as it was.
pub proof fn lemma_created_wf(s: DbView, p: ProjectView)
    requires
        s.wf(),
        spec_valid_name(p.name),
        s.project(p.name) is None,
    ensures
        s.created(p).wf(),
        s.created(p).project(p.name) == Some(p),
        forall|name: Seq<char>|
            name != p.name ==> #[trigger] s.created(p).project(name) == s.project(name),
{
    let t = s.created(p);
    lemma_push(s.projects, project_name(), p);
    assert forall|name: Seq<char>| name != p.name implies #[trigger] t.project(name) == s.project(
        name,
    ) by {
        let _ = find_row(t.projects, project_name(), name);
    }
    let _ = find_row(t.projects, project_name(), p.name);
    assert forall|j: int| 0 <= j < t.files.len() implies has_project(
        t.projects,
        (#[trigger] t.files[j]).project,
    ) by {
        let n = s.files[j].project;
        assert(has_project(s.projects, n));
        let k = choose|k: int| row_at(s.projects, project_name(), n, k);
        assert(row_at(t.projects, project_name(), n, k));
    }
    assert forall|j: int| 0 <= j < t.projects.len() implies spec_valid_name(
        (#[trigger] t.projects[j]).name,
    ) by {
        if j < s.projects.len() {
            assert(spec_valid_name(s.projects[j].name));
        }
    }
    assert forall|key: CacheKeyView| #[trigger] t.cache.contains_key(key) implies t.agrees(
        key,
        t.cache[key],
    ) by {
        assert(s.cache.contains_key(key) && s.cache[key] == t.cache[key]);
        assert(s.agrees(key, s.cache[key]));
        match key {
            CacheKeyView::OwnerPage(owner, _) => {
                assert(owner != p.owner);
                assert(briefs(t.projects) =~= briefs(s.projects).push(brief(p)));
                lemma_filter_push(briefs(s.projects), owned_by(owner), brief(p));
            },
            CacheKeyView::Project(name) => {
                assert(name != p.name);
                assert(t.project(name) == s.project(name));
            },
            _ => {},
        }
        lemma_agrees_kept(s, t, key, s.cache[key]);
    }
}

/// A file row as it stands after its project `from` was renamed to `to`.
pub open spec fn carried(from: Seq<char>, to: Seq<char>) -> spec_fn(FileView) -> FileView {
    |f: FileView|
        if f.project == from {
            FileView { project: to, ..f }
        } else {
            f
        }
}

/// The files after a project was renamed to a name that no file bore: what
/// stood under the old name stands under the new one, and nothing else moved.
pub proof fn lemma_files_carried(files: Seq<FileView>, from: Seq<char>, to: Seq<char>)
    requires
        unique_rows(files, file_key()),
        from != to,
        forall|i: int| 0 <= i < files.len() ==> (#[trigger] files[i]).project != to,
    ensures
        unique_rows(files.map_values(carried(from, to)), file_key()),
        forall|name: Seq<char>, path: Seq<char>| #[trigger]
            find_row(files.map_values(carried(from, to)), file_key(), (name, path)) == if name
                == to {
                match find_row(files, file_key(), (from, path)) {
                    Some(f) => Some(carried(from, to)(f)),
                    None => None,
                }
            } else if name == from {
                None
            } else {
                find_row(files, file_key(), (name, path))
            },
{
    let after = files.map_values(carried(from, to));
    assert forall|a: int, b: int|
        0 <= a < after.len() && 0 <= b < after.len() && file_key()(#[trigger] after[a])
            == file_key()(#[trigger] after[b]) implies a == b by {
        assert(files[a].project != to && files[b].project != to);
        assert(file_key()(files[a]) == file_key()(files[b]));
    }
    assert forall|name: Seq<char>, path: Seq<char>| #[trigger]
        find_row(after, file_key(), (name, path)) == if name == to {
            match find_row(files, file_key(), (from, path)) {
                Some(f) => Some(carried(from, to)(f)),
                None => None,
            }
        } else if name == from {
            None
        } else {
            find_row(files, file_key(), (name, path))
        } by {
        let source = if name == to {
            from
        } else {
            name
        };
        if has_row(after, file_key(), (name, path)) {
            let j = choose|j: int| row_at(after, file_key(), (name, path), j);
            assert(files[j].project != to);
            assert(name != from);
            assert(row_at(files, file_key(), (source, path), j));
            lemma_found(files, file_key(), (source, path), j);
            lemma_found(after, file_key(), (name, path), j);
        } else if name != from && has_row(files, file_key(), (source, path)) {
            let j = choose|j: int| row_at(files, file_key(), (source, path), j);
            assert(files[j].project != to);
            assert(row_at(after, file_key(), (name, path), j));
        }
    }
}

impl DbView {
    /// The state after row `i` of the projects was replaced by `p`, which
    /// bears another name: the files follow the project, and the record, the
    /// listings and the cached files that went by the old name are dropped.
    pub open spec fn renamed(self, i: int, p: ProjectView, editor: Seq<char>) -> DbView {
        let old = self.projects[i];
        DbView {
            projects: self.projects.update(i, p),
            files: self.files.map_values(carried(old.name, p.name)),
            cache: without_pages(
                without_pages(
                    without_pages(
                        without_paths(self.cache.remove(CacheKeyView::Project(old.name)), old.name),
                        old.owner,
                    ),
                    p.owner,
                ),
                editor,
            ).insert(CacheKeyView::Project(p.name), CacheValueView::Snapshot(p)),
            ..self
        }
    }

    /// The state after row `i` of the projects was deleted with all its
    /// files: the record, the cached files, and the listings of the owner and
    /// of the one who deleted are dropped.
    pub open spec fn deleted(self, i: int, deleter: Seq<char>) -> DbView {
        let old = self.projects[i];
        DbView {
            projects: self.projects.remove(i),
            files: self.files.filter(outside_project(old.name)),
            cache: without_pages(
                without_pages(
                    without_paths(self.cache.remove(CacheKeyView::Project(old.name)), old.name),
                    old.owner,
                ),
                deleter,
            ),
            ..self
        }
    }
}

/// A rename to a free name leaves the store well-formed; project and files are
/// found under the new name, and nothing under the old one.
pub proof fn lemma_renamed_wf(s: DbView, i: int, p: ProjectView, editor: Seq<char>)
    requires
        s.wf(),
        0 <= i < s.projects.len(),
        p.name != s.projects[i].name,
        spec_valid_name(p.name),
        s.project(p.name) is None,
    ensures
        s.renamed(i, p, editor).wf(),
        s.renamed(i, p, editor).project(p.name) == Some(p),
        s.renamed(i, p, editor).project(s.projects[i].name) is None,
        forall|name: Seq<char>|
            name != p.name && name != s.projects[i].name ==> #[trigger] s.renamed(
                i,
                p,
                editor,
            ).project(name) == s.project(name),
        forall|path: Seq<char>| #[trigger]
            s.renamed(i, p, editor).file(p.name, path) == s.file(s.projects[i].name, path),
        forall|name: Seq<char>, path: Seq<char>|
            name != p.name && name != s.projects[i].name ==> #[trigger] s.renamed(i, p, editor).file(
                name,
                path,
            ) == s.file(name, path),
{
    let t = s.renamed(i, p, editor);
    let old = s.projects[i];
    assert forall|j: int| 0 <= j < s.projects.len() && j != i implies project_name()(
        #[trigger] s.projects[j],
    ) != project_name()(p) by {
        if s.projects[j].name == p.name {
            assert(row_at(s.projects, project_name(), p.name, j));
        }
    }
    lemma_replace(s.projects, project_name(), i, p);
    assert forall|name: Seq<char>| #[trigger]
        t.project(name) == if name == p.name {
            Some(p)
        } else if name == old.name {
            None
        } else {
            s.project(name)
        } by {
        let _ = find_row(t.projects, project_name(), name);
    }
    assert forall|j: int| 0 <= j < s.files.len() implies (#[trigger] s.files[j]).project
        != p.name by {
        assert(has_project(s.projects, s.files[j].project));
    }
    lemma_files_carried(s.files, old.name, p.name);
    assert forall|name: Seq<char>, path: Seq<char>| #[trigger]
        t.file(name, path) == if name == p.name {
            s.file(old.name, path)
        } else if name == old.name {
            None
        } else {
            s.file(name, path)
        } by {
        let _ = find_row(t.files, file_key(), (name, path));
    }
    assert forall|j: int| 0 <= j < t.files.len() implies has_project(
        t.projects,
        (#[trigger] t.files[j]).project,
    ) by {
        let n = s.files[j].project;
        if n == old.name {
            assert(row_at(t.projects, project_name(), p.name, i));
        } else {
            assert(has_project(s.projects, n));
            let k = choose|k: int| row_at(s.projects, project_name(), n, k);
            assert(row_at(t.projects, project_name(), n, k));
        }
    }
    assert forall|j: int| 0 <= j < t.files.len() implies "/"@.is_prefix_of(
        (#[trigger] t.files[j]).path,
    ) by {
        assert("/"@.is_prefix_of(s.files[j].path));
    }
    assert forall|j: int| 0 <= j < t.projects.len() implies spec_valid_name(
        (#[trigger] t.projects[j]).name,
    ) by {
        assert(spec_valid_name(s.projects[j].name));
    }
    assert forall|key: CacheKeyView| #[trigger] t.cache.contains_key(key) implies t.agrees(
        key,
        t.cache[key],
    ) by {
        if key != CacheKeyView::Project(p.name) {
            assert(s.cache.contains_key(key) && s.cache[key] == t.cache[key]);
            assert(s.agrees(key, s.cache[key]));
            match key {
                CacheKeyView::OwnerPage(owner, _) => {
                    assert(owner != old.owner && owner != p.owner);
                    assert(briefs(t.projects) =~= briefs(s.projects).update(i, brief(p)));
                    lemma_filter_replace(briefs(s.projects), owned_by(owner), i, brief(p));
                },
                CacheKeyView::Project(name) => {
                    assert(name != old.name);
                    assert(t.project(name) == s.project(name));
                },
                CacheKeyView::Path(name, path) => {
                    assert(name != old.name);
                    if name == p.name {
                        let f = choose|j: int| row_at(s.files, file_key(), (name, path), j);
                        assert(s.files[f].project == p.name);
                    }
                    assert(t.file(name, path) == s.file(name, path));
                },
                _ => {},
            }
            lemma_agrees_kept(s, t, key, s.cache[key]);
        }
    }
}

/// A deletion leaves the store well-formed; neither the project nor any of its
/// files is found, and all others are as they were.
pub proof fn lemma_deleted_wf(s: DbView, i: int, deleter: Seq<char>)
    requires
        s.wf(),
        0 <= i < s.projects.len(),
    ensures
        s.deleted(i, deleter).wf(),
        s.deleted(i, deleter).project(s.projects[i].name) is None,
        forall|name: Seq<char>|
            name != s.projects[i].name ==> #[trigger] s.deleted(i, deleter).project(name)
                == s.project(name),
        forall|path: Seq<char>| #[trigger]
            s.deleted(i, deleter).file(s.projects[i].name, path) is None,
        forall|name: Seq<char>, path: Seq<char>|
            name != s.projects[i].name ==> #[trigger] s.deleted(i, deleter).file(name, path)
                == s.file(name, path),
{
    let t = s.deleted(i, deleter);
    let old = s.projects[i];
    lemma_remove(s.projects, project_name(), i);
    assert forall|name: Seq<char>| #[trigger]
        t.project(name) == if name == old.name {
            None
        } else {
            s.project(name)
        } by {
        let _ = find_row(t.projects, project_name(), name);
    }
    lemma_filter(s.files, file_key(), outside_project(old.name));
    assert forall|name: Seq<char>, path: Seq<char>| #[trigger]
        t.file(name, path) == if name == old.name {
            None
        } else {
            s.file(name, path)
        } by {
        let _ = find_row(t.files, file_key(), (name, path));
        if find_row(s.files, file_key(), (name, path)) is Some {
            let j = crate::rows::lemma_find_is_row(s.files, file_key(), (name, path));
        }
    }
    assert forall|j: int| 0 <= j < t.files.len() implies has_project(
        t.projects,
        (#[trigger] t.files[j]).project,
    ) && "/"@.is_prefix_of(t.files[j].path) by {
        let k = crate::rows::lemma_filter_rows(s.files, outside_project(old.name), j);
        let n = s.files[k].project;
        assert(n != old.name);
        assert(has_project(s.projects, n));
        let m = choose|m: int| row_at(s.projects, project_name(), n, m);
        assert(m != i);
        let m2 = if m < i {
            m
        } else {
            m - 1
        };
        assert(row_at(t.projects, project_name(), n, m2));
    }
    assert forall|j: int| 0 <= j < t.projects.len() implies spec_valid_name(
        (#[trigger] t.projects[j]).name,
    ) by {
        let j0 = if j < i {
            j
        } else {
            j + 1
        };
        assert(spec_valid_name(s.projects[j0].name));
    }
    assert forall|key: CacheKeyView| #[trigger] t.cache.contains_key(key) implies t.agrees(
        key,
        t.cache[key],
    ) by {
        assert(s.cache.contains_key(key) && s.cache[key] == t.cache[key]);
        assert(s.agrees(key, s.cache[key]));
        match key {
            CacheKeyView::OwnerPage(owner, _) => {
                assert(owner != old.owner);
                assert(briefs(t.projects) =~= briefs(s.projects).remove(i));
                lemma_filter_remove(briefs(s.projects), owned_by(owner), i);
            },
            CacheKeyView::Project(name) => {
                assert(name != old.name);
                assert(t.project(name) == s.project(name));
            },
            CacheKeyView::Path(name, path) => {
                assert(name != old.name);
                assert(t.file(name, path) == s.file(name, path));
            },
            _ => {},
        }
        lemma_agrees_kept(s, t, key, s.cache[key]);
    }
}

impl DbView {
    /// The row of the file of that project under that path.
    pub open spec fn file_index(self, name: Seq<char>, path: Seq<char>) -> int {
        choose|i: int| row_at(self.files, file_key(), (name, path), i)
    }

    /// The row that records that the user marked the project.
    pub open spec fn favorite_index(self, user: Seq<char>, project: Seq<char>) -> int {
        choose|i: int| row_at(self.favorites, favorite_key(), (user, project), i)
    }

    /// The state with `value` put into the cache under `key`.
    pub open spec fn cached(self, key: CacheKeyView, value: CacheValueView) -> DbView {
        DbView { cache: self.cache.insert(key, value), ..self }
    }

    /// The state after a file was written: the row is added, or its content
    /// replaced, and the cache is written through.
    pub open spec fn file_put(self, name: Seq<char>, path: Seq<char>, content: Seq<char>) -> DbView {
        let row = FileView { project: name, path, content };
        DbView {
            files: if has_row(self.files, file_key(), (name, path)) {
                self.files.update(self.file_index(name, path), row)
            } else {
                self.files.push(row)
            },
            cache: self.cache.insert(
                CacheKeyView::Path(name, path),
                CacheValueView::Content(content),
            ),
            ..self
        }
    }

    /// The state after a file was deleted: the row is gone, if there was one,
    /// and so is the cache entry.
    pub open spec fn file_dropped(self, name: Seq<char>, path: Seq<char>) -> DbView {
        DbView {
            files: if has_row(self.files, file_key(), (name, path)) {
                self.files.remove(self.file_index(name, path))
            } else {
                self.files
            },
            cache: self.cache.remove(CacheKeyView::Path(name, path)),
            ..self
        }
    }

    /// The state after a file was moved from one path to another: the file
    /// takes the place of what stood under the new path, and the cache
    /// entries of both paths are dropped. The new path is not written
    /// through: the cache holds nothing for it until the file is read. Where
    /// there is no file under the old path, or the two paths are one, only
    /// the cache entry of the old path is dropped.
    pub open spec fn file_moved(self, name: Seq<char>, from: Seq<char>, to: Seq<char>) -> DbView {
        if from == to || !has_row(self.files, file_key(), (name, from)) {
            DbView { cache: self.cache.remove(CacheKeyView::Path(name, from)), ..self }
        } else {
            let cleared = self.file_dropped(name, to);
            let i = cleared.file_index(name, from);
            DbView {
                files: cleared.files.update(i, FileView { path: to, ..cleared.files[i] }),
                cache: cleared.cache.remove(CacheKeyView::Path(name, from)),
                ..cleared
            }
        }
    }

    /// The state after a user marked a project.
    pub open spec fn favorite_added(self, user: Seq<char>, project: Seq<char>) -> DbView {
        DbView { favorites: self.favorites.push(FavoriteView { user, project }), ..self }
    }

    /// The state after a user took their mark off a project.
    pub open spec fn favorite_removed(self, user: Seq<char>, project: Seq<char>) -> DbView {
        DbView { favorites: self.favorites.remove(self.favorite_index(user, project)), ..self }
    }
}

/// An entry that agrees with the tables may be put into the cache.
pub proof fn lemma_cached_wf(s: DbView, key: CacheKeyView, value: CacheValueView)
    requires
        s.wf(),
        s.agrees(key, value),
    ensures
        s.cached(key, value).wf(),
{
    let t = s.cached(key, value);
    assert forall|k: CacheKeyView| #[trigger] t.cache.contains_key(k) implies t.agrees(
        k,
        t.cache[k],
    ) by {
        if k != key {
            assert(s.agrees(k, s.cache[k]));
        }
    }
}

/// Entries may be dropped from the cache at any time.
pub proof fn lemma_uncached_wf(s: DbView, cache: Map<CacheKeyView, CacheValueView>)
    requires
        s.wf(),
        cache.submap_of(s.cache),
    ensures
        (DbView { cache, ..s }).wf(),
{
    let t = DbView { cache, ..s };
    assert forall|k: CacheKeyView| #[trigger] t.cache.contains_key(k) implies t.agrees(
        k,
        t.cache[k],
    ) by {
        assert(s.cache.contains_key(k));
        assert(s.agrees(k, s.cache[k]));
    }
}

/// The tables' invariants and the agreement of every entry but those under
/// the file paths carry over where only files changed and each cached path
/// still has its content.
proof fn lemma_files_changed(s: DbView, t: DbView)
    requires
        s.wf(),
        t.projects == s.projects,
        t.users == s.users,
        t.favorites == s.favorites,
        unique_rows(t.files, file_key()),
        forall|j: int|
            0 <= j < t.files.len() ==> has_project(t.projects, (#[trigger] t.files[j]).project)
                && "/"@.is_prefix_of(t.files[j].path),
        forall|k: CacheKeyView| #[trigger]
            t.cache.contains_key(k) ==> (s.cache.contains_key(k) && s.cache[k] == t.cache[k] && (
            k matches CacheKeyView::Path(n, p) ==> t.file(n, p) == s.file(n, p))) || t.agrees(
                k,
                t.cache[k],
            ),
    ensures
        t.wf(),
{
    assert forall|k: CacheKeyView| #[trigger] t.cache.contains_key(k) implies t.agrees(
        k,
        t.cache[k],
    ) by {
        if !t.agrees(k, t.cache[k]) {
            assert(s.agrees(k, s.cache[k]));
            lemma_agrees_kept(s, t, k, s.cache[k]);
        }
    }
}

/// A file written into a project that exists leaves the store well-formed; its
/// path holds the content, and every other path what it held.
pub proof fn lemma_file_put_wf(s: DbView, name: Seq<char>, path: Seq<char>, content: Seq<char>)
    requires
        s.wf(),
        has_project(s.projects, name),
        "/"@.is_prefix_of(path),
    ensures
        s.file_put(name, path, content).wf(),
        s.file_put(name, path, content).file(name, path) == Some(content),
        forall|n: Seq<char>, p: Seq<char>|
            (n, p) != (name, path) ==> #[trigger] s.file_put(name, path, content).file(n, p)
                == s.file(n, p),
{
    let t = s.file_put(name, path, content);
    let row = FileView { project: name, path, content };
    if has_row(s.files, file_key(), (name, path)) {
        let i = s.file_index(name, path);
        assert forall|j: int| 0 <= j < s.files.len() && j != i implies file_key()(
            #[trigger] s.files[j],
        ) != file_key()(row) by {
            assert(file_key()(s.files[i]) == (name, path));
        }
        lemma_replace(s.files, file_key(), i, row);
    } else {
        lemma_push(s.files, file_key(), row);
    }
    assert forall|n: Seq<char>, p: Seq<char>| #[trigger]
        t.file(n, p) == if (n, p) == (name, path) {
            Some(content)
        } else {
            s.file(n, p)
        } by {
        let _ = find_row(t.files, file_key(), (n, p));
    }
    assert forall|j: int| 0 <= j < t.files.len() implies has_project(
        t.projects,
        (#[trigger] t.files[j]).project,
    ) && "/"@.is_prefix_of(t.files[j].path) by {
        if j < s.files.len() {
            assert(has_project(s.projects, s.files[j].project));
            assert("/"@.is_prefix_of(s.files[j].path));
        }
    }
    lemma_files_changed(s, t);
}

/// A file deleted leaves the store well-formed; its path holds nothing, and
/// every other path what it held.
pub proof fn lemma_file_dropped_wf(s: DbView, name: Seq<char>, path: Seq<char>)
    requires
        s.wf(),
    ensures
        s.file_dropped(name, path).wf(),
        s.file_dropped(name, path).file(name, path) is None,
        forall|n: Seq<char>, p: Seq<char>|
            (n, p) != (name, path) ==> #[trigger] s.file_dropped(name, path).file(n, p) == s.file(
                n,
                p,
            ),
{
    let t = s.file_dropped(name, path);
    if has_row(s.files, file_key(), (name, path)) {
        let i = s.file_index(name, path);
        lemma_remove(s.files, file_key(), i);
        assert forall|j: int| 0 <= j < t.files.len() implies has_project(
            t.projects,
            (#[trigger] t.files[j]).project,
        ) && "/"@.is_prefix_of(t.files[j].path) by {
            let j0 = if j < i {
                j
            } else {
                j + 1
            };
            assert(has_project(s.projects, s.files[j0].project));
            assert("/"@.is_prefix_of(s.files[j0].path));
        }
    }
    assert forall|n: Seq<char>, p: Seq<char>| #[trigger]
        t.file(n, p) == if (n, p) == (name, path) {
            None
        } else {
            s.file(n, p)
        } by {
        let _ = find_row(t.files, file_key(), (n, p));
    }
    lemma_files_changed(s, t);
}

/// A file moved leaves the store well-formed; the new path holds what the old
/// one held, the old one nothing, and every other path what it held.
pub proof fn lemma_file_moved_wf(s: DbView, name: Seq<char>, from: Seq<char>, to: Seq<char>)
    requires
        s.wf(),
        "/"@.is_prefix_of(to),
    ensures
        s.file_moved(name, from, to).wf(),
        s.file_moved(name, from, to).projects == s.projects,
        from != to && s.file(name, from) is Some ==> s.file_moved(name, from, to).file(name, to)
            == s.file(name, from) && s.file_moved(name, from, to).file(name, from) is None,
        from == to || s.file(name, from) is None ==> s.file_moved(name, from, to).files == s.files,
        forall|n: Seq<char>, p: Seq<char>|
            (n, p) != (name, from) && (n, p) != (name, to) ==> #[trigger] s.file_moved(
                name,
                from,
                to,
            ).file(n, p) == s.file(n, p),
{
    let t = s.file_moved(name, from, to);
    if from == to || !has_row(s.files, file_key(), (name, from)) {
        lemma_uncached_wf(s, s.cache.remove(CacheKeyView::Path(name, from)));
    } else {
        let c = s.file_dropped(name, to);
        lemma_file_dropped_wf(s, name, to);
        assert(c.file(name, from) == s.file(name, from));
        let i = c.file_index(name, from);
        assert(has_row(c.files, file_key(), (name, from)));
        let row = FileView { path: to, ..c.files[i] };
        assert forall|j: int| 0 <= j < c.files.len() && j != i implies file_key()(
            #[trigger] c.files[j],
        ) != file_key()(row) by {
            if file_key()(c.files[j]) == (name, to) {
                assert(row_at(c.files, file_key(), (name, to), j));
            }
        }
        lemma_found(c.files, file_key(), (name, from), i);
        lemma_replace(c.files, file_key(), i, row);
        assert forall|n: Seq<char>, p: Seq<char>| #[trigger]
            t.file(n, p) == if (n, p) == (name, to) {
                c.file(name, from)
            } else if (n, p) == (name, from) {
                None
            } else {
                c.file(n, p)
            } by {
            let _ = find_row(t.files, file_key(), (n, p));
        }
        assert forall|j: int| 0 <= j < t.files.len() implies has_project(
            t.projects,
            (#[trigger] t.files[j]).project,
        ) && "/"@.is_prefix_of(t.files[j].path) by {
            assert(has_project(c.projects, c.files[j].project));
            assert("/"@.is_prefix_of(c.files[j].path));
        }
        lemma_files_changed(c, t);
    }
}

/// A mark added leaves the store well-formed; it is on record, and every other
/// mark as it was.
pub proof fn lemma_favorite_added_wf(s: DbView, user: Seq<char>, project: Seq<char>)
    requires
        s.wf(),
        !has_row(s.favorites, favorite_key(), (user, project)),
    ensures
        s.favorite_added(user, project).wf(),
        has_row(s.favorite_added(user, project).favorites, favorite_key(), (user, project)),
        forall|u: Seq<char>, p: Seq<char>|
            (u, p) != (user, project) ==> #[trigger] has_row(
                s.favorite_added(user, project).favorites,
                favorite_key(),
                (u, p),
            ) == has_row(s.favorites, favorite_key(), (u, p)),
{
    let t = s.favorite_added(user, project);
    let row = FavoriteView { user, project };
    lemma_push(s.favorites, favorite_key(), row);
    assert forall|u: Seq<char>, p: Seq<char>| #[trigger]
        has_row(t.favorites, favorite_key(), (u, p)) == ((u, p) == (user, project) || has_row(
            s.favorites,
            favorite_key(),
            (u, p),
        )) by {
        let _ = find_row(t.favorites, favorite_key(), (u, p));
    }
    assert forall|k: CacheKeyView| #[trigger] t.cache.contains_key(k) implies t.agrees(
        k,
        t.cache[k],
    ) by {
        assert(s.agrees(k, s.cache[k]));
    }
}

/// A mark removed leaves the store well-formed; it is off the record, and
/// every other mark as it was.
pub proof fn lemma_favorite_removed_wf(s: DbView, user: Seq<char>, project: Seq<char>)
    requires
        s.wf(),
        has_row(s.favorites, favorite_key(), (user, project)),
    ensures
        s.favorite_removed(user, project).wf(),
        !has_row(s.favorite_removed(user, project).favorites, favorite_key(), (user, project)),
        forall|u: Seq<char>, p: Seq<char>|
            (u, p) != (user, project) ==> #[trigger] has_row(
                s.favorite_removed(user, project).favorites,
                favorite_key(),
                (u, p),
            ) == has_row(s.favorites, favorite_key(), (u, p)),
{
    let t = s.favorite_removed(user, project);
    let i = s.favorite_index(user, project);
    lemma_remove(s.favorites, favorite_key(), i);
    assert forall|u: Seq<char>, p: Seq<char>| #[trigger]
        has_row(t.favorites, favorite_key(), (u, p)) == ((u, p) != (user, project) && has_row(
            s.favorites,
            favorite_key(),
            (u, p),
        )) by {
        let _ = find_row(t.favorites, favorite_key(), (u, p));
    }
    assert forall|k: CacheKeyView| #[trigger] t.cache.contains_key(k) implies t.agrees(
        k,
        t.cache[k],
    ) by {
        assert(s.agrees(k, s.cache[k]));
    }
}

} // verus!
