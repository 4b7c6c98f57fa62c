//! The project store: listing, creating, editing and deleting projects, and
//! counting the requests they serve.

use vstd::prelude::*;
use vstd::string::*;
use crate::cache::{
    CacheKey, CacheKeyView, CacheValue, CacheValueView, clone_page, held, page_views, spec_incr,
};
use crate::db::{Database, lemma_index_is, spec_edit_refusal, spec_editor};
use crate::identity::{can_manage, IdentityView, spec_can_manage};
use crate::model::{
    CreateProjectView, DeletedProject, MetadataView, PCreateProject, PEditFieldsByName,
    PrivateMetadataView, Project, ProjectMetadata, ProjectPrivateMetadata, ProjectType,
    ProjectView, text_option_view,
};
use crate::names::{spec_valid_name, valid_name};
use crate::outcome::{DefaultReturn, Failure};
use crate::quota::{period_elapsed, spec_period_elapsed};
use crate::rows::lemma_filter_push;
use crate::state::{
    brief, Brief, briefs, DbView, insert_by_age, lemma_project_found, listed, newest_first,
    owned_by, page_end, PAGE_SIZE, page_start, paths_of, project_name, projects_of, spec_page,
};
use crate::steps::lemma_cached_wf;
use crate::text::{chars_of, same_text};

verus! {

/// A row goes into a sorted listing behind the last row that is no older.
proof fn lemma_insert_at(sorted: Seq<Brief>, p: Brief, pos: int)
    requires
        0 <= pos <= sorted.len(),
        forall|k: int| pos <= k < sorted.len() ==> (#[trigger] sorted[k]).timestamp < p.timestamp,
        pos > 0 ==> sorted[pos - 1].timestamp >= p.timestamp,
    ensures
        insert_by_age(sorted, p) == sorted.insert(pos, p),
    decreases sorted.len(),
{
    if sorted.len() == 0 {
        assert(seq![p] =~= sorted.insert(pos, p));
    } else if pos == sorted.len() {
        assert(sorted.push(p) =~= sorted.insert(pos, p));
    } else {
        assert(sorted[sorted.len() - 1].timestamp < p.timestamp);
        lemma_insert_at(sorted.drop_last(), p, pos);
        assert(sorted.drop_last().insert(pos, p).push(sorted.last()) =~= sorted.insert(pos, p));
    }
}

/// The rows that the indices in `order` pick.
pub open spec fn picked(rows: Seq<ProjectView>, order: Seq<usize>) -> Seq<Brief> {
    order.map_values(|k: usize| brief(rows[k as int]))
}

impl Database {
    /// The rows of an owner's projects, the latest billing period first.
    fn listing_order(&self, owner: &str) -> (order: Vec<usize>)
        ensures
            picked(self@.projects, order@) == newest_first(projects_of(self@.projects, owner@)),
            forall|j: int| 0 <= j < order@.len() ==> (#[trigger] order@[j]) < self@.projects.len(),
    {
        let ghost rows = self@.projects;
        let ghost keep = owned_by(owner@);
        let mut order: Vec<usize> = Vec::new();
        let n: usize = self.projects.len();
        let mut i: usize = 0;
        assert(briefs(rows).take(0).filter(keep) =~= Seq::<Brief>::empty()) by {
            reveal(Seq::filter);
        }
        assert(picked(rows, order@) =~= newest_first(briefs(rows).take(0).filter(keep)));
        while i < n
            invariant
                n == self.projects@.len(),
                rows == self@.projects,
                keep == owned_by(owner@),
                i <= n,
                order@.len() <= i,
                picked(rows, order@) == newest_first(briefs(rows).take(i as int).filter(keep)),
                forall|j: int| 0 <= j < order@.len() ==> (#[trigger] order@[j]) < n,
            decreases n - i,
        {
            let ghost sorted = picked(rows, order@);
            let ghost b = brief(rows[i as int]);
            proof {
                assert(briefs(rows).take(i + 1) =~= briefs(rows).take(i as int).push(b));
                lemma_filter_push(briefs(rows).take(i as int), keep, b);
            }
            if same_text(self.projects[i].owner.as_str(), owner) {
                let stamp: u128 = self.projects[i].timestamp;
                let mut pos: usize = order.len();
                while pos > 0 && self.projects[order[pos - 1]].timestamp < stamp
                    invariant
                        n == self.projects@.len(),
                        rows == self@.projects,
                        pos <= order@.len(),
                        sorted == picked(rows, order@),
                        forall|j: int| 0 <= j < order@.len() ==> (#[trigger] order@[j]) < n,
                        forall|k: int|
                            pos <= k < sorted.len() ==> (#[trigger] sorted[k]).timestamp < stamp,
                    decreases pos,
                {
                    assert(sorted[pos - 1] == brief(rows[order@[pos - 1] as int]));
                    pos -= 1;
                }
                proof {
                    if pos > 0 {
                        assert(sorted[pos - 1] == brief(rows[order@[pos - 1] as int]));
                    }
                    lemma_insert_at(sorted, b, pos as int);
                    assert(briefs(rows).take(i as int).filter(keep).push(b).drop_last()
                        =~= briefs(rows).take(i as int).filter(keep));
                }
                order.insert(pos, i);
                assert(picked(rows, order@) =~= sorted.insert(pos as int, b));
            }
            i += 1;
        }
        assert(briefs(rows).take(n as int) =~= briefs(rows));
        order
    }

    /// How many projects an owner has.
    pub fn owned_count(&self, owner: &str) -> (r: usize)
        ensures
            r == projects_of(self@.projects, owner@).len(),
    {
        let ghost rows = briefs(self@.projects);
        let ghost keep = owned_by(owner@);
        let n: usize = self.projects.len();
        let mut count: usize = 0;
        let mut i: usize = 0;
        assert(rows.take(0).filter(keep) =~= Seq::<Brief>::empty()) by {
            reveal(Seq::filter);
        }
        while i < n
            invariant
                n == self.projects@.len(),
                rows == briefs(self@.projects),
                keep == owned_by(owner@),
                i <= n,
                count <= i,
                count == rows.take(i as int).filter(keep).len(),
            decreases n - i,
        {
            proof {
                assert(rows.take(i + 1) =~= rows.take(i as int).push(rows[i as int]));
                lemma_filter_push(rows.take(i as int), keep, rows[i as int]);
            }
            if same_text(self.projects[i].owner.as_str(), owner) {
                count += 1;
            }
            i += 1;
        }
        assert(rows.take(n as int) =~= rows);
        count
    }

    /// One page of an owner's projects, read from the table.
    fn page(&self, owner: &str, offset: i32) -> (r: Vec<PCreateProject>)
        ensures
            page_views(r@) == spec_page(self@.projects, owner@, offset as int),
    {
        let order = self.listing_order(owner);
        let ghost all = newest_first(projects_of(self@.projects, owner@));
        let len: usize = order.len();
        let start: usize = if offset < 0 {
            0
        } else if offset as usize > len {
            len
        } else {
            offset as usize
        };
        let end: usize = if len - start > PAGE_SIZE {
            start + PAGE_SIZE
        } else {
            len
        };
        assert(start == page_start(len as int, offset as int));
        assert(end == page_end(len as int, offset as int));
        let mut out: Vec<PCreateProject> = Vec::new();
        let mut k: usize = start;
        let ghost show = |b: Brief| listed(b);
        assert(page_views(out@) =~= all.subrange(start as int, k as int).map_values(show));
        while k < end
            invariant
                start <= k <= end <= len,
                len == order@.len(),
                all == picked(self@.projects, order@),
                show == (|b: Brief| listed(b)),
                forall|j: int|
                    0 <= j < order@.len() ==> (#[trigger] order@[j]) < self@.projects.len(),
                page_views(out@) == all.subrange(start as int, k as int).map_values(show),
            decreases end - k,
        {
            let p = &self.projects[order[k]];
            let ghost before = out@;
            out.push(PCreateProject { name: p.name.clone(), kind: p.private_metadata.kind });
            proof {
                assert(all[k as int] == brief(self@.projects[order@[k as int] as int]));
                assert(page_views(out@) =~= page_views(before).push(listed(all[k as int])));
                assert(all.subrange(start as int, k + 1).map_values(show) =~= all.subrange(
                    start as int,
                    k as int,
                ).map_values(show).push(listed(all[k as int])));
            }
            k += 1;
        }
        out
    }

    /// One page of the projects of an owner, the latest billing period first:
    /// from the cache where it holds the page, else from the table, from
    /// where the page is brought into the cache.
    pub fn get_projects_by_owner_limited(&mut self, owner: String, offset: Option<i32>) -> (r:
        DefaultReturn<Option<Vec<PCreateProject>>>)
        requires
            old(self).wf(),
        ensures
            final(self).wf(),
            final(self)@ == old(self)@.cached(
                CacheKeyView::OwnerPage(owner@, spec_offset(offset)),
                CacheValueView::Page(spec_page(old(self)@.projects, owner@, spec_offset(offset) as int)),
            ),
            r.succeeded(owner@),
            r.payload matches Some(page) && page_views(page@) == spec_page(
                old(self)@.projects,
                owner@,
                spec_offset(offset) as int,
            ),
    {
        let offset: i32 = match offset {
            Some(n) => n,
            None => 0,
        };
        let key = CacheKey::OwnerPage(owner.clone(), offset);
        proof {
            lemma_cached_wf(
                self@,
                key@,
                CacheValueView::Page(spec_page(self@.projects, owner@, offset as int)),
            );
        }
        match self.cache.get(&key) {
            Some(CacheValue::Page(page)) => {
                proof {
                    assert(self@.cache.contains_key(key@));
                    assert(self@.agrees(key@, self@.cache[key@]));
                    assert(self@.cache.insert(key@, self@.cache[key@]) =~= self@.cache);
                }
                return DefaultReturn::ok(owner, Some(page));
            },
            Some(_) => {
                proof {
                    assert(self@.cache.contains_key(key@));
                    assert(self@.agrees(key@, self@.cache[key@]));
                }
            },
            None => {},
        }
        let page = self.page(owner.as_str(), offset);
        self.cache.set(key, CacheValue::Page(clone_page(&page)));
        DefaultReturn::ok(owner, Some(page))
    }
}

/// The offset a listing begins at where none is given: 0.
pub open spec fn spec_offset(offset: Option<i32>) -> i32 {
    match offset {
        Some(n) => n,
        None => 0,
    }
}

/// How an edit of the name and owner of a project ends.
pub enum EditVerdict {
    Refused(Failure),
    /// The project keeps its name; this is its record after the edit.
    Kept(ProjectView),
    /// The project goes by a new name; this is its record after the edit.
    Renamed(ProjectView),
}

/// The record after an edit of name and owner. A name shorter than two
/// characters keeps the present name. An editor who may not hand projects on
/// becomes the owner themselves, whatever owner was asked for.
pub open spec fn edited(
    p: ProjectView,
    editor: IdentityView,
    name_field: Seq<char>,
    owner_field: Seq<char>,
) -> ProjectView {
    ProjectView {
        name: if name_field.len() < 2 {
            p.name
        } else {
            name_field
        },
        owner: if editor.capabilities.edit_owner {
            owner_field
        } else {
            editor.username
        },
        ..p
    }
}

/// How an edit of the name and owner of the project `name` ends. The checks
/// come in this order: the project exists; the editor is known; the editor is
/// the owner or an administrator, unless the checks are bypassed; a new name
/// is one a project may bear; a new name is free.
pub open spec fn spec_edit(
    s: DbView,
    name: Seq<char>,
    name_field: Seq<char>,
    owner_field: Seq<char>,
    edit_as: Option<Seq<char>>,
    bypass: bool,
) -> EditVerdict {
    match s.project(name) {
        None => EditVerdict::Refused(Failure::ProjectMissing),
        Some(p) => match spec_editor(s, edit_as) {
            None => EditVerdict::Refused(Failure::EditorRequired),
            Some(editor) => if !spec_can_manage(editor, p.owner) && !bypass {
                EditVerdict::Refused(Failure::NotPermitted)
            } else {
                let q = edited(p, editor, name_field, owner_field);
                if q.name == name {
                    EditVerdict::Kept(q)
                } else if !spec_valid_name(q.name) {
                    EditVerdict::Refused(Failure::NameInvalid)
                } else if s.project(q.name) is Some {
                    EditVerdict::Refused(Failure::NameInUse)
                } else {
                    EditVerdict::Renamed(q)
                }
            },
        },
    }
}

/// The state an edit of name and owner leaves. Where the owner changes, the
/// listings of the old and the new owner are dropped; where the name
/// changes, the files follow, and all that the cache held under the old name
/// is dropped.
pub open spec fn edit_post(s: DbView, name: Seq<char>, verdict: EditVerdict, editor: Seq<char>)
    -> DbView {
    match verdict {
        EditVerdict::Refused(_) => s.warmed(name),
        EditVerdict::Kept(q) => if s.project(name) matches Some(p) && p.owner == q.owner {
            s.warmed(name)
        } else {
            s.replaced(s.project_index(name), q)
        },
        EditVerdict::Renamed(q) => s.renamed(s.project_index(name), q, editor),
    }
}

/// What an edit of name and owner answers with.
pub open spec fn edit_answer(verdict: EditVerdict, r: DefaultReturn<Option<String>>) -> bool {
    match verdict {
        EditVerdict::Refused(reason) => r.failed(reason) && r.payload is None,
        EditVerdict::Kept(q) => r.succeeded("Project updated!"@) && (r.payload matches Some(n)
            && n@ == q.name),
        EditVerdict::Renamed(q) => r.succeeded("Project updated!"@) && (r.payload matches Some(
            n,
        ) && n@ == q.name),
    }
}

/// How the creation of a project ends.
pub enum CreateVerdict {
    Refused(Failure),
    /// The name was taken by a project without files, which changes hands;
    /// this is its record afterwards.
    Reclaimed(ProjectView),
    /// The project is new; this is its record.
    Created(ProjectView),
}

/// How the creation of the project `name` by `as_user` at the time `now`
/// ends. The checks come in this order: the creator is not anonymous; the
/// name is one a project may bear; the name is free, or taken by a project
/// without files; the creator is known; and, for a new project, the creator
/// may own one more.
pub open spec fn spec_create(s: DbView, name: Seq<char>, as_user: Option<Seq<char>>, now: u128)
    -> CreateVerdict {
    match as_user {
        None => CreateVerdict::Refused(Failure::AccountRequired),
        Some(user) => if !spec_valid_name(name) {
            CreateVerdict::Refused(Failure::NameInvalid)
        } else if s.project(name) is Some && paths_of(s.files, name).len() > 0 {
            CreateVerdict::Refused(Failure::NameTaken)
        } else {
            match s.user(user) {
                None => CreateVerdict::Refused(Failure::UserInvalid),
                Some(creator) => match s.project(name) {
                    Some(p) => CreateVerdict::Reclaimed(ProjectView { owner: user, ..p }),
                    None => if creator.capabilities.allowance.spec_admits(
                        projects_of(s.projects, user).len(),
                    ) {
                        CreateVerdict::Created(ProjectView::fresh(name, user, now))
                    } else {
                        CreateVerdict::Refused(Failure::ProjectLimitReached)
                    },
                },
            }
        },
    }
}

/// The state the creation of a project leaves.
pub open spec fn create_post(s: DbView, name: Seq<char>, verdict: CreateVerdict) -> DbView {
    match verdict {
        CreateVerdict::Refused(_) => s.warmed(name),
        CreateVerdict::Reclaimed(q) => if s.project(name) matches Some(p) && p.owner == q.owner {
            s.warmed(name)
        } else {
            s.replaced(s.project_index(name), q)
        },
        CreateVerdict::Created(p) => s.created(p),
    }
}

/// What the creation of a project answers with.
pub open spec fn create_answer(
    verdict: CreateVerdict,
    props: CreateProjectView,
    r: DefaultReturn<Option<PCreateProject>>,
) -> bool {
    match verdict {
        CreateVerdict::Refused(reason) => r.failed(reason) && r.payload is None,
        CreateVerdict::Reclaimed(_) => r.succeeded("Project updated!"@) && (
        r.payload matches Some(q) && q@ == props),
        CreateVerdict::Created(_) => r.succeeded("Project created"@) && (r.payload matches Some(
            q,
        ) && q@ == props),
    }
}

/// The state that counting one request of the project `name` at the time
/// `now` leaves: where the billing period is over a new one begins now; and
/// the counter of the project goes up by one. The counter is not set back
/// when a new period begins: it counts all requests the project ever served,
/// and the ceiling is held against that count.
pub open spec fn incr_post(s: DbView, name: Seq<char>, now: u128) -> DbView {
    match s.project(name) {
        None => s,
        Some(p) => {
            let rolled = if spec_period_elapsed(p.timestamp, now) {
                s.replaced(s.project_index(name), ProjectView { timestamp: now, ..p })
            } else {
                s.warmed(name)
            };
            rolled.cached(
                CacheKeyView::Requests(name),
                spec_incr(held(s.cache, CacheKeyView::Requests(name))),
            )
        },
    }
}

/// What an operation answers with that hands the name of the project back.
pub open spec fn name_answer(
    refusal: Option<Failure>,
    message: Seq<char>,
    name: Seq<char>,
    r: DefaultReturn<Option<String>>,
) -> bool {
    match refusal {
        Some(reason) => r.failed(reason) && r.payload is None,
        None => r.succeeded(message) && (r.payload matches Some(n) && n@ == name),
    }
}

/// Why an edit of the private metadata is refused, if it is: the project is
/// missing, or an editor is named who may not change it. Without an
/// editor the edit is the system's own.
pub open spec fn spec_private_edit_refusal(s: DbView, name: Seq<char>, edit_as: Option<Seq<char>>)
    -> Option<Failure> {
    match edit_as {
        Some(_) => spec_edit_refusal(s, name, edit_as),
        None => if s.project(name) is None {
            Some(Failure::ProjectMissing)
        } else {
            None
        },
    }
}

/// The state after the private metadata of the project `name` was replaced:
/// the record in the cache is overwritten; the listings of the owner are
/// dropped where the kind of the project changed, for they show it.
pub open spec fn private_edit_post(s: DbView, name: Seq<char>, metadata: PrivateMetadataView)
    -> DbView {
    match s.project(name) {
        None => s,
        Some(p) => {
            let q = ProjectView { private_metadata: metadata, ..p };
            if metadata.kind == p.private_metadata.kind {
                s.touched(s.project_index(name), q)
            } else {
                s.replaced(s.project_index(name), q)
            }
        },
    }
}

/// The container that is to be torn down with a project: the one it holds,
/// where it is container-backed.
pub open spec fn spec_teardown(p: ProjectView) -> Option<Seq<char>> {
    if p.private_metadata.kind == ProjectType::StaticContainer {
        p.private_metadata.cid
    } else {
        None
    }
}

impl Database {
    /// Looks the project `name` up, and with it the row that holds it.
    pub(crate) fn locate(&mut self, name: &str) -> (r: Option<(usize, Project)>)
        requires
            old(self).wf(),
        ensures
            final(self).wf(),
            final(self)@ == old(self)@.warmed(name@),
            match r {
                Some((i, p)) => old(self)@.project(name@) == Some(p@) && i
                    == old(self)@.project_index(name@) && 0 <= i < old(self)@.projects.len()
                    && old(self)@.projects[i as int] == p@,
                None => old(self)@.project(name@) is None,
            },
    {
        let existing = self.get_project_by_id(String::from_str(name));
        match existing.payload {
            None => None,
            Some(p) => match self.project_position(name) {
                Some(i) => {
                    proof {
                        lemma_index_is(self@.projects, project_name(), name@, i as int);
                        lemma_project_found(self@.projects, name@, i as int);
                    }
                    Some((i, p))
                },
                None => {
                    proof {
                        assert(false);
                    }
                    None
                },
            },
        }
    }

    /// Changes the name and the owner of a project.
    pub fn edit_fields_by_name(
        &mut self,
        name: String,
        fields: PEditFieldsByName,
        edit_as: Option<String>,
        bypass_user_checks: bool,
    ) -> (r: DefaultReturn<Option<String>>)
        requires
            old(self).wf(),
        ensures
            final(self).wf(),
            final(self)@ == edit_post(
                old(self)@,
                name@,
                spec_edit(
                    old(self)@,
                    name@,
                    fields.name@,
                    fields.owner@,
                    text_option_view(edit_as),
                    bypass_user_checks,
                ),
                match edit_as {
                    Some(u) => u@,
                    None => Seq::<char>::empty(),
                },
            ),
            edit_answer(
                spec_edit(
                    old(self)@,
                    name@,
                    fields.name@,
                    fields.owner@,
                    text_option_view(edit_as),
                    bypass_user_checks,
                ),
                r,
            ),
    {
        let ghost s = self@;
        let (i, project) = match self.locate(name.as_str()) {
            Some(found) => found,
            None => {
                return DefaultReturn::fail(Failure::ProjectMissing, None);
            },
        };
        let editor = match self.editor(&edit_as) {
            Some(u) => u,
            None => {
                return DefaultReturn::fail(Failure::EditorRequired, None);
            },
        };
        if !can_manage(&editor, project.owner.as_str()) && !bypass_user_checks {
            return DefaultReturn::fail(Failure::NotPermitted, None);
        }
        let new_name = if chars_of(fields.name.as_str()).len() < 2 {
            project.name.clone()
        } else {
            fields.name
        };
        let new_owner = if editor.capabilities.edit_owner {
            fields.owner
        } else {
            editor.username.clone()
        };
        let same_owner = same_text(new_owner.as_str(), project.owner.as_str());
        let q = Project {
            name: new_name.clone(),
            owner: new_owner,
            timestamp: project.timestamp,
            private_metadata: project.private_metadata,
            metadata: project.metadata,
        };
        assert(q@ == edited(project@, editor@, fields.name@, fields.owner@));
        if same_text(new_name.as_str(), name.as_str()) {
            if !same_owner {
                self.replace_project(i, q);
                assert(self@.cache =~= s.replaced(i as int, q@).cache);
            }
            return DefaultReturn::ok(String::from_str("Project updated!"), Some(new_name));
        }
        if !valid_name(new_name.as_str()) {
            return DefaultReturn::fail(Failure::NameInvalid, None);
        }
        if self.project_position(new_name.as_str()).is_some() {
            return DefaultReturn::fail(Failure::NameInUse, None);
        }
        let editor_name = match &edit_as {
            Some(u) => u.clone(),
            None => String::new(),
        };
        self.rename_project(i, q, editor_name.as_str());
        assert(self@.cache =~= s.renamed(i as int, q@, editor_name@).cache);
        DefaultReturn::ok(String::from_str("Project updated!"), Some(new_name))
    }

    /// Creates a project, or hands an existing project without files to the
    /// one who asks for its name. A new project starts with the default
    /// metadata, whatever kind was asked for; its kind is changed by an edit
    /// of the private metadata.
    pub fn create_project(&mut self, props: &PCreateProject, as_user: Option<String>, now: u128)
        -> (r: DefaultReturn<Option<PCreateProject>>)
        requires
            old(self).wf(),
        ensures
            final(self).wf(),
            final(self)@ == create_post(
                old(self)@,
                props@.name,
                spec_create(old(self)@, props@.name, text_option_view(as_user), now),
            ),
            create_answer(
                spec_create(old(self)@, props@.name, text_option_view(as_user), now),
                props@,
                r,
            ),
    {
        let ghost s = self@;
        let user = match as_user {
            Some(u) => u,
            None => {
                proof {
                    crate::state::lemma_warmed_wf(s, props@.name);
                }
                let _ = self.locate(props.name.as_str());
                return DefaultReturn::fail(Failure::AccountRequired, None);
            },
        };
        let found = self.locate(props.name.as_str());
        if !valid_name(props.name.as_str()) {
            return DefaultReturn::fail(Failure::NameInvalid, None);
        }
        if found.is_some() && self.paths_in(props.name.as_str()).len() > 0 {
            return DefaultReturn::fail(Failure::NameTaken, None);
        }
        let creator = match self.get_user_by_username(user.as_str()) {
            Some(u) => u,
            None => {
                return DefaultReturn::fail(Failure::UserInvalid, None);
            },
        };
        match found {
            Some((i, project)) => {
                if !same_text(project.owner.as_str(), user.as_str()) {
                    let q = Project {
                        name: project.name,
                        owner: user,
                        timestamp: project.timestamp,
                        private_metadata: project.private_metadata,
                        metadata: project.metadata,
                    };
                    self.replace_project(i, q);
                    assert(self@.cache =~= s.replaced(i as int, q@).cache);
                }
                DefaultReturn::ok(String::from_str("Project updated!"), Some(props.clone()))
            },
            None => {
                if !creator.capabilities.allowance.admits(self.owned_count(user.as_str())) {
                    return DefaultReturn::fail(Failure::ProjectLimitReached, None);
                }
                self.add_project(Project::new(props.name.clone(), user, now));
                DefaultReturn::ok(String::from_str("Project created"), Some(props.clone()))
            },
        }
    }

    /// Counts one request that a project has served. Answers whether the
    /// project exists.
    pub fn incr_project_requests(&mut self, name: String, now: u128) -> (r: bool)
        requires
            old(self).wf(),
        ensures
            final(self).wf(),
            r == (old(self)@.project(name@) is Some),
            final(self)@ == incr_post(old(self)@, name@, now),
    {
        let ghost s = self@;
        let (i, project) = match self.locate(name.as_str()) {
            Some(found) => found,
            None => {
                return false;
            },
        };
        if period_elapsed(project.timestamp, now) {
            let q = Project {
                name: project.name,
                owner: project.owner,
                timestamp: now,
                private_metadata: project.private_metadata,
                metadata: project.metadata,
            };
            self.replace_project(i, q);
            assert(self@.cache =~= s.replaced(i as int, q@).cache);
        }
        let key = CacheKey::Requests(name);
        proof {
            let held_now = held(self@.cache, key@);
            assert(held_now == held(s.cache, key@));
            if self@.cache.contains_key(key@) {
                assert(self@.agrees(key@, self@.cache[key@]));
            }
            lemma_cached_wf(self@, key@, spec_incr(held_now));
        }
        self.cache.incr(key);
        true
    }

    /// Replaces the metadata of a project that its owner may change.
    pub fn edit_project_metadata_by_name(
        &mut self,
        name: String,
        metadata: ProjectMetadata,
        edit_as: Option<String>,
    ) -> (r: DefaultReturn<Option<String>>)
        requires
            old(self).wf(),
        ensures
            final(self).wf(),
            name_answer(
                spec_edit_refusal(old(self)@, name@, text_option_view(edit_as)),
                "Project updated!"@,
                name@,
                r,
            ),
            final(self)@ == match old(self)@.project(name@) {
                Some(p) if r.success => old(self)@.touched(
                    old(self)@.project_index(name@),
                    ProjectView { metadata: metadata@, ..p },
                ),
                _ => old(self)@.warmed(name@),
            },
    {
        let ghost s = self@;
        let (i, project) = match self.locate(name.as_str()) {
            Some(found) => found,
            None => {
                return DefaultReturn::fail(Failure::ProjectMissing, None);
            },
        };
        match self.permit(project.owner.as_str(), &edit_as) {
            Some(reason) => {
                return DefaultReturn::fail(reason, None);
            },
            None => {},
        }
        let q = Project {
            name: project.name,
            owner: project.owner,
            timestamp: project.timestamp,
            private_metadata: project.private_metadata,
            metadata,
        };
        self.touch_project(i, q);
        assert(self@.cache =~= s.touched(i as int, q@).cache);
        DefaultReturn::ok(String::from_str("Project updated!"), Some(name))
    }

    /// Replaces the metadata of a project that only an administrator, or the
    /// system itself, may change.
    pub fn edit_project_private_metadata_by_name(
        &mut self,
        name: String,
        metadata: ProjectPrivateMetadata,
        edit_as: Option<String>,
    ) -> (r: DefaultReturn<Option<String>>)
        requires
            old(self).wf(),
        ensures
            final(self).wf(),
            name_answer(
                spec_private_edit_refusal(old(self)@, name@, text_option_view(edit_as)),
                "Project updated!"@,
                name@,
                r,
            ),
            final(self)@ == if r.success {
                private_edit_post(old(self)@, name@, metadata@)
            } else {
                old(self)@.warmed(name@)
            },
    {
        let ghost s = self@;
        let (i, project) = match self.locate(name.as_str()) {
            Some(found) => found,
            None => {
                return DefaultReturn::fail(Failure::ProjectMissing, None);
            },
        };
        if edit_as.is_some() {
            match self.permit(project.owner.as_str(), &edit_as) {
                Some(reason) => {
                    return DefaultReturn::fail(reason, None);
                },
                None => {},
            }
        }
        self.put_private_metadata(i, project, metadata);
        assert(self@.cache =~= private_edit_post(s, name@, metadata@).cache);
        DefaultReturn::ok(String::from_str("Project updated!"), Some(name))
    }

    /// Puts new private metadata into row `i`, which holds `project`.
    pub(crate) fn put_private_metadata(
        &mut self,
        i: usize,
        project: Project,
        metadata: ProjectPrivateMetadata,
    )
        requires
            old(self).wf(),
            i < old(self)@.projects.len(),
            old(self)@.projects[i as int] == project@,
        ensures
            final(self).wf(),
            final(self)@ == (if metadata@.kind == project@.private_metadata.kind {
                old(self)@.touched(
                    i as int,
                    ProjectView { private_metadata: metadata@, ..project@ },
                )
            } else {
                old(self)@.replaced(
                    i as int,
                    ProjectView { private_metadata: metadata@, ..project@ },
                )
            }),
    {
        let same_kind = metadata.kind == project.private_metadata.kind;
        let q = Project {
            name: project.name,
            owner: project.owner,
            timestamp: project.timestamp,
            private_metadata: metadata,
            metadata: project.metadata,
        };
        if same_kind {
            self.touch_project(i, q);
        } else {
            self.replace_project(i, q);
        }
    }

    /// Deletes a project with all its files. The answer names the container
    /// that is left to be removed.
    pub fn delete_project(&mut self, name: String, delete_as: Option<String>) -> (r: DefaultReturn<
        Option<DeletedProject>,
    >)
        requires
            old(self).wf(),
        ensures
            final(self).wf(),
            match spec_edit_refusal(old(self)@, name@, text_option_view(delete_as)) {
                Some(reason) => r.failed(reason) && r.payload is None && final(self)@
                    == old(self)@.warmed(name@),
                None => {
                    &&& r.succeeded("Project deleted!"@)
                    &&& r.payload matches Some(d)
                    &&& d.name@ == name@
                    &&& old(self)@.project(name@) matches Some(p)
                    &&& text_option_view(d.container) == spec_teardown(p)
                    &&& final(self)@ == old(self)@.deleted(
                        old(self)@.project_index(name@),
                        delete_as.unwrap()@,
                    )
                },
            },
    {
        let ghost s = self@;
        let (i, project) = match self.locate(name.as_str()) {
            Some(found) => found,
            None => {
                return DefaultReturn::fail(Failure::ProjectMissing, None);
            },
        };
        match self.permit(project.owner.as_str(), &delete_as) {
            Some(reason) => {
                return DefaultReturn::fail(reason, None);
            },
            None => {},
        }
        let deleter = match &delete_as {
            Some(u) => u.clone(),
            None => String::new(),
        };
        let container = match project.private_metadata.kind {
            ProjectType::StaticContainer => project.private_metadata.cid,
            ProjectType::StaticPackage => None,
        };
        self.remove_project(i, deleter.as_str());
        assert(self@.cache =~= s.deleted(i as int, deleter@).cache);
        DefaultReturn::ok(
            String::from_str("Project deleted!"),
            Some(DeletedProject { name, container }),
        )
    }
}

impl Database {
    /// The deployment script of a project.
    pub fn get_project_script(&mut self, name: String) -> (r: DefaultReturn<Option<String>>)
        requires
            old(self).wf(),
        ensures
            final(self).wf(),
            final(self)@ == old(self)@.warmed(name@),
            match old(self)@.project(name@) {
                None => r.failed(Failure::ProjectMissing) && r.payload is None,
                Some(p) => r.succeeded("Project exists"@) && (r.payload matches Some(script)
                    && script@ == p.metadata.script),
            },
    {
        let existing = self.get_project_by_id(name);
        match existing.payload {
            Some(p) => DefaultReturn::ok(String::from_str("Project exists"), Some(p.metadata.script)),
            None => DefaultReturn::fail(Failure::ProjectMissing, None),
        }
    }

    /// Replaces the deployment script of a project, and nothing else of its
    /// metadata.
    pub fn edit_project_script(&mut self, name: String, script: String, edit_as: Option<String>)
        -> (r: DefaultReturn<Option<String>>)
        requires
            old(self).wf(),
        ensures
            final(self).wf(),
            name_answer(
                spec_edit_refusal(old(self)@, name@, text_option_view(edit_as)),
                "Project updated!"@,
                name@,
                r,
            ),
            final(self)@ == match old(self)@.project(name@) {
                Some(p) if r.success => old(self)@.touched(
                    old(self)@.project_index(name@),
                    ProjectView { metadata: MetadataView { script: script@, ..p.metadata }, ..p },
                ),
                _ => old(self)@.warmed(name@),
            },
    {
        let ghost s = self@;
        let (i, project) = match self.locate(name.as_str()) {
            Some(found) => found,
            None => {
                return DefaultReturn::fail(Failure::ProjectMissing, None);
            },
        };
        match self.permit(project.owner.as_str(), &edit_as) {
            Some(reason) => {
                return DefaultReturn::fail(reason, None);
            },
            None => {},
        }
        let q = Project {
            name: project.name,
            owner: project.owner,
            timestamp: project.timestamp,
            private_metadata: project.private_metadata,
            metadata: ProjectMetadata {
                script,
                file_privacy: project.metadata.file_privacy,
                clean_paths: project.metadata.clean_paths,
            },
        };
        self.touch_project(i, q);
        assert(self@.cache =~= s.touched(i as int, q@).cache);
        DefaultReturn::ok(String::from_str("Project updated!"), Some(name))
    }
}

impl Database {
    /// The number of requests a project has served, as the cache counts them.
    pub fn get_project_requests(&mut self, name: String) -> (r: DefaultReturn<i64>)
        requires
            old(self).wf(),
        ensures
            final(self).wf(),
            final(self)@ == old(self)@.warmed(name@),
            match old(self)@.project(name@) {
                None => r.failed(Failure::ProjectMissing) && r.payload == 0,
                Some(_) => r.succeeded(name@) && r.payload == old(self)@.usage(name@),
            },
    {
        let existing = self.get_project_by_id(name.clone());
        if existing.payload.is_none() {
            return DefaultReturn::fail(Failure::ProjectMissing, 0);
        }
        let count = self.cache.count(&CacheKey::Requests(name.clone()));
        DefaultReturn::ok(name, count)
    }
}

} // verus!
