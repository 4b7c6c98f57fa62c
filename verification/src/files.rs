//! The file store: reading, listing, writing, deleting and moving the files
//! of a project.

use vstd::prelude::*;
use vstd::string::*;
use crate::cache::{CacheKey, CacheKeyView, CacheValue, CacheValueView};
use crate::codec::{base64_decoded, decode, serve_decoded, spec_served};
use crate::db::{Database, spec_edit_refusal};
use crate::identity::texts;
use crate::model::{FileView, Project, ProjectFilePrivacy, ProjectView, text_option_view};
use crate::outcome::{DefaultReturn, Failure};
use crate::paths::{
    is_protected, lemma_rooted_begins_with_slash, rooted, served_path, spec_is_protected,
    spec_rooted, spec_served_path,
};
use crate::projects::incr_post;
use crate::quota::{spec_within_quota, within_quota};
use crate::rows::lemma_filter_push;
use crate::state::{DbView, in_project, lemma_file_found, paths_of};
use crate::steps::lemma_cached_wf;
use crate::text::same_text;

verus! {

/// Who may read the files of a project: anybody, unless they are private;
/// then the owner alone, and whoever is let past the checks.
pub open spec fn may_view(p: ProjectView, as_user: Option<Seq<char>>, bypass: bool) -> bool {
    bypass || p.metadata.file_privacy != ProjectFilePrivacy::Private || as_user == Some(p.owner)
}

/// Who may list the files of a project: anybody where they are public; else
/// the owner alone, and whoever is let past the checks.
pub open spec fn may_list(p: ProjectView, as_user: Option<Seq<char>>, bypass: bool) -> bool {
    bypass || p.metadata.file_privacy == ProjectFilePrivacy::Public || as_user == Some(p.owner)
}

/// How a read ends, before the content is decoded.
pub enum ReadVerdict {
    Refused(Failure),
    /// The file is served under `path`, which holds `content` as base64 text.
    Served { path: Seq<char>, content: Seq<char> },
}

/// How a read of `path` in the project `name` ends. The checks come in this
/// order: the project exists; the reader may see its files; the path is no
/// secret, or the read is a protected one; the owner is known; the owner's
/// ceiling on requests is not reached; the file exists.
pub open spec fn spec_read(
    s: DbView,
    name: Seq<char>,
    path: Seq<char>,
    as_user: Option<Seq<char>>,
    bypass: bool,
    protected: bool,
) -> ReadVerdict {
    match s.project(name) {
        None => ReadVerdict::Refused(Failure::ProjectMissing),
        Some(p) => if !may_view(p, as_user, bypass) {
            ReadVerdict::Refused(Failure::ViewNotAllowed)
        } else if !protected && spec_is_protected(path) {
            ReadVerdict::Refused(Failure::ProtectedPath)
        } else {
            let served = spec_served_path(path, p.metadata.clean_paths);
            match s.user(p.owner) {
                None => ReadVerdict::Refused(Failure::OwnerInvalid),
                Some(owner) => if !spec_within_quota(
                    owner.capabilities.request_limit,
                    s.usage(name),
                ) {
                    ReadVerdict::Refused(Failure::RequestLimitExceeded)
                } else {
                    match s.file(name, served) {
                        None => ReadVerdict::Refused(Failure::FileMissing),
                        Some(content) => ReadVerdict::Served { path: served, content },
                    }
                },
            }
        },
    }
}

/// The state a read leaves: the record of the project is in the cache, and
/// so is the content of the file where it was served.
pub open spec fn read_post(s: DbView, name: Seq<char>, verdict: ReadVerdict) -> DbView {
    match verdict {
        ReadVerdict::Served { path, content } => if base64_decoded(content) is Some {
            s.warmed(name).cached(CacheKeyView::Path(name, path), CacheValueView::Content(content))
        } else {
            s.warmed(name)
        },
        ReadVerdict::Refused(_) => s.warmed(name),
    }
}

/// What a read answers with.
pub open spec fn read_answer(verdict: ReadVerdict, r: DefaultReturn<Option<Vec<u8>>>) -> bool {
    match verdict {
        ReadVerdict::Refused(reason) => r.failed(reason) && r.payload is None,
        ReadVerdict::Served { path, content } => spec_served(path, base64_decoded(content), r),
    }
}

/// Whether that user may read the files of the project.
pub fn can_view(p: &Project, as_user: &Option<String>, bypass: bool) -> (r: bool)
    ensures
        r == may_view(p@, text_option_view(*as_user), bypass),
{
    if bypass {
        return true;
    }
    match p.metadata.file_privacy {
        ProjectFilePrivacy::Private => match as_user {
            Some(u) => same_text(u.as_str(), p.owner.as_str()),
            None => false,
        },
        _ => true,
    }
}

/// Whether that user may list the files of the project.
pub fn can_list(p: &Project, as_user: &Option<String>, bypass: bool) -> (r: bool)
    ensures
        r == may_list(p@, text_option_view(*as_user), bypass),
{
    if bypass {
        return true;
    }
    match p.metadata.file_privacy {
        ProjectFilePrivacy::Public => true,
        _ => match as_user {
            Some(u) => same_text(u.as_str(), p.owner.as_str()),
            None => false,
        },
    }
}

impl Database {
    /// Reads a file of a project.
    pub fn get_file_in_project(
        &mut self,
        name: String,
        path: String,
        as_user: Option<String>,
        bypass_user_checks: bool,
        protected: bool,
    ) -> (r: DefaultReturn<Option<Vec<u8>>>)
        requires
            old(self).wf(),
        ensures
            final(self).wf(),
            final(self)@ == read_post(
                old(self)@,
                name@,
                spec_read(
                    old(self)@,
                    name@,
                    path@,
                    text_option_view(as_user),
                    bypass_user_checks,
                    protected,
                ),
            ),
            read_answer(
                spec_read(
                    old(self)@,
                    name@,
                    path@,
                    text_option_view(as_user),
                    bypass_user_checks,
                    protected,
                ),
                r,
            ),
    {
        let ghost s = self@;
        let existing = self.get_project_by_id(name.clone());
        let project = match existing.payload {
            Some(p) => p,
            None => {
                return DefaultReturn::fail(Failure::ProjectMissing, None);
            },
        };
        proof {
            assert(self@.usage(name@) == s.usage(name@));
        }
        if !can_view(&project, &as_user, bypass_user_checks) {
            return DefaultReturn::fail(Failure::ViewNotAllowed, None);
        }
        if !protected && is_protected(path.as_str()) {
            return DefaultReturn::fail(Failure::ProtectedPath, None);
        }
        let served = served_path(path.as_str(), project.metadata.clean_paths);
        let owner = match self.get_user_by_username(project.owner.as_str()) {
            Some(u) => u,
            None => {
                return DefaultReturn::fail(Failure::OwnerInvalid, None);
            },
        };
        let usage = self.cache.count(&CacheKey::Requests(name.clone()));
        if !within_quota(owner.capabilities.request_limit, usage) {
            return DefaultReturn::fail(Failure::RequestLimitExceeded, None);
        }
        let key = CacheKey::Path(name.clone(), served.clone());
        match self.cache.get(&key) {
            Some(CacheValue::Content(content)) => {
                proof {
                    assert(self@.cache.contains_key(key@));
                    assert(self@.agrees(key@, self@.cache[key@]));
                    assert(self@.cache.insert(key@, self@.cache[key@]) =~= self@.cache);
                }
                return serve_decoded(served, decode(content.as_str()));
            },
            Some(_) => {
                proof {
                    assert(self@.cache.contains_key(key@));
                    assert(self@.agrees(key@, self@.cache[key@]));
                }
                return DefaultReturn::fail(Failure::FileMissing, None);
            },
            None => {},
        }
        let i = match self.file_position(name.as_str(), served.as_str()) {
            Some(i) => i,
            None => {
                return DefaultReturn::fail(Failure::FileMissing, None);
            },
        };
        proof {
            lemma_file_found(self@.files, name@, served@, i as int);
        }
        let content = self.files[i].content.clone();
        let decoded = decode(content.as_str());
        if decoded.is_some() {
            proof {
                lemma_cached_wf(self@, key@, CacheValueView::Content(content@));
            }
            self.cache.set(key, CacheValue::Content(content));
        }
        serve_decoded(served, decoded)
    }
}

/// What a change to a file answers with: the reason where it is refused,
/// else the message and the path it worked on.
pub open spec fn write_answer(
    refusal: Option<Failure>,
    message: Seq<char>,
    path: Seq<char>,
    r: DefaultReturn<Option<String>>,
) -> bool {
    match refusal {
        Some(reason) => r.failed(reason) && r.payload is None,
        None => {
            &&& r.succeeded(message)
            &&& r.payload matches Some(p)
            &&& p@ == path
        },
    }
}

/// Why an update of a file is refused, if it is: the project is missing, the
/// editor may not change it, or there is no file under the path.
pub open spec fn spec_update_refusal(
    s: DbView,
    name: Seq<char>,
    path: Seq<char>,
    edit_as: Option<Seq<char>>,
) -> Option<Failure> {
    match spec_edit_refusal(s, name, edit_as) {
        Some(reason) => Some(reason),
        None => if s.file(name, spec_rooted(path)) is None {
            Some(Failure::FileMissing)
        } else {
            None
        },
    }
}

/// Why a listing of the files of a project is refused, if it is.
pub open spec fn spec_list_refusal(
    s: DbView,
    name: Seq<char>,
    as_user: Option<Seq<char>>,
    bypass: bool,
) -> Option<Failure> {
    match s.project(name) {
        None => Some(Failure::ProjectMissing),
        Some(p) => if may_list(p, as_user, bypass) {
            None
        } else {
            Some(Failure::ListingNotAllowed)
        },
    }
}

impl Database {
    /// Opens the project `name` for a change by `edit_as`: looks it up and
    /// asks whether the editor may change it.
    pub(crate) fn open_for_edit(&mut self, name: &str, edit_as: &Option<String>) -> (r: Result<
        Project,
        Failure,
    >)
        requires
            old(self).wf(),
        ensures
            final(self).wf(),
            final(self)@ == old(self)@.warmed(name@),
            match r {
                Ok(p) => spec_edit_refusal(old(self)@, name@, text_option_view(*edit_as)) is None
                    && old(self)@.project(name@) == Some(p@),
                Err(reason) => spec_edit_refusal(old(self)@, name@, text_option_view(*edit_as))
                    == Some(reason),
            },
    {
        let existing = self.get_project_by_id(String::from_str(name));
        match existing.payload {
            None => Err(Failure::ProjectMissing),
            Some(p) => match self.permit(p.owner.as_str(), edit_as) {
                Some(reason) => Err(reason),
                None => Ok(p),
            },
        }
    }

    /// Lists the paths of the files of a project.
    pub fn get_project_files(&mut self, name: String, as_user: Option<String>, bypass_user_checks: bool)
        -> (r: DefaultReturn<Vec<String>>)
        requires
            old(self).wf(),
        ensures
            final(self).wf(),
            final(self)@ == old(self)@.warmed(name@),
            match spec_list_refusal(
                old(self)@,
                name@,
                text_option_view(as_user),
                bypass_user_checks,
            ) {
                Some(reason) => r.failed(reason) && r.payload@.len() == 0,
                None => r.succeeded("Files exist"@) && texts(r.payload@) == paths_of(
                    old(self)@.files,
                    name@,
                ),
            },
    {
        let existing = self.get_project_by_id(name.clone());
        let project = match existing.payload {
            Some(p) => p,
            None => {
                return DefaultReturn::fail(Failure::ProjectMissing, Vec::new());
            },
        };
        if !can_list(&project, &as_user, bypass_user_checks) {
            return DefaultReturn::fail(Failure::ListingNotAllowed, Vec::new());
        }
        let paths = self.paths_in(name.as_str());
        DefaultReturn::ok(String::from_str("Files exist"), paths)
    }

    /// The paths of the files of a project, in the order of the table.
    pub(crate) fn paths_in(&self, name: &str) -> (r: Vec<String>)
        ensures
            texts(r@) == paths_of(self@.files, name@),
    {
        let ghost rows = self@.files;
        let ghost keep = in_project(name@);
        let ghost path_of = |f: FileView| f.path;
        let mut out: Vec<String> = Vec::new();
        let n: usize = self.files.len();
        let mut i: usize = 0;
        assert(rows.take(0).filter(keep) =~= Seq::<FileView>::empty()) by {
            reveal(Seq::filter);
        }
        assert(texts(out@) =~= rows.take(0).filter(keep).map_values(path_of));
        while i < n
            invariant
                n == self.files@.len(),
                rows == self@.files,
                keep == in_project(name@),
                path_of == (|f: FileView| f.path),
                i <= n,
                texts(out@) == rows.take(i as int).filter(keep).map_values(path_of),
            decreases n - i,
        {
            proof {
                assert(rows.take(i + 1) =~= rows.take(i as int).push(rows[i as int]));
                lemma_filter_push(rows.take(i as int), keep, rows[i as int]);
            }
            let ghost before = out@;
            if same_text(self.files[i].project.as_str(), name) {
                out.push(self.files[i].path.clone());
                assert(texts(out@) =~= texts(before).push(rows[i as int].path));
                assert(rows.take(i as int).filter(keep).push(rows[i as int]).map_values(path_of)
                    =~= rows.take(i as int).filter(keep).map_values(path_of).push(
                    rows[i as int].path,
                ));
            }
            i += 1;
        }
        assert(rows.take(n as int) =~= rows);
        out
    }

    /// Writes a file of a project: adds it, or replaces what stood under its
    /// path.
    pub fn store_file_in_project(
        &mut self,
        name: String,
        path: String,
        content: String,
        edit_as: Option<String>,
    ) -> (r: DefaultReturn<Option<String>>)
        requires
            old(self).wf(),
        ensures
            final(self).wf(),
            write_answer(
                spec_edit_refusal(old(self)@, name@, text_option_view(edit_as)),
                "File inserted"@,
                spec_rooted(path@),
                r,
            ),
            final(self)@ == if r.success {
                old(self)@.warmed(name@).file_put(name@, spec_rooted(path@), content@)
            } else {
                old(self)@.warmed(name@)
            },
    {
        match self.open_for_edit(name.as_str(), &edit_as) {
            Err(reason) => {
                return DefaultReturn::fail(reason, None);
            },
            Ok(_) => {},
        }
        proof {
            lemma_rooted_begins_with_slash(path@);
            let _ = self@.project(name@);
        }
        let path = rooted(path.as_str());
        self.put_file(name.as_str(), path.as_str(), content);
        DefaultReturn::ok(String::from_str("File inserted"), Some(path))
    }

    /// Replaces the content of a file that exists.
    pub fn update_file_in_project(
        &mut self,
        name: String,
        path: String,
        content: String,
        edit_as: Option<String>,
    ) -> (r: DefaultReturn<Option<String>>)
        requires
            old(self).wf(),
        ensures
            final(self).wf(),
            write_answer(
                spec_update_refusal(old(self)@, name@, path@, text_option_view(edit_as)),
                "File updated"@,
                spec_rooted(path@),
                r,
            ),
            final(self)@ == if r.success {
                old(self)@.warmed(name@).file_put(name@, spec_rooted(path@), content@)
            } else {
                old(self)@.warmed(name@)
            },
    {
        match self.open_for_edit(name.as_str(), &edit_as) {
            Err(reason) => {
                return DefaultReturn::fail(reason, None);
            },
            Ok(_) => {},
        }
        proof {
            lemma_rooted_begins_with_slash(path@);
            let _ = self@.project(name@);
        }
        let path = rooted(path.as_str());
        match self.file_position(name.as_str(), path.as_str()) {
            None => {
                return DefaultReturn::fail(Failure::FileMissing, None);
            },
            Some(i) => {
                proof {
                    lemma_file_found(self@.files, name@, path@, i as int);
                }
            },
        }
        self.put_file(name.as_str(), path.as_str(), content);
        DefaultReturn::ok(String::from_str("File updated"), Some(path))
    }

    /// Deletes the file under `path`, taken as it is given.
    pub fn delete_file_in_project(&mut self, name: String, path: String, edit_as: Option<String>)
        -> (r: DefaultReturn<Option<String>>)
        requires
            old(self).wf(),
        ensures
            final(self).wf(),
            write_answer(
                spec_edit_refusal(old(self)@, name@, text_option_view(edit_as)),
                "File deleted"@,
                path@,
                r,
            ),
            final(self)@ == if r.success {
                old(self)@.warmed(name@).file_dropped(name@, path@)
            } else {
                old(self)@.warmed(name@)
            },
    {
        match self.open_for_edit(name.as_str(), &edit_as) {
            Err(reason) => {
                return DefaultReturn::fail(reason, None);
            },
            Ok(_) => {},
        }
        self.drop_file(name.as_str(), path.as_str());
        DefaultReturn::ok(String::from_str("File deleted"), Some(path))
    }

    /// Moves a file to another path. Where no file stands under the old path
    /// nothing moves, and the operation succeeds all the same.
    pub fn move_file_in_project(
        &mut self,
        name: String,
        path: String,
        new_path: String,
        edit_as: Option<String>,
    ) -> (r: DefaultReturn<Option<String>>)
        requires
            old(self).wf(),
        ensures
            final(self).wf(),
            write_answer(
                spec_edit_refusal(old(self)@, name@, text_option_view(edit_as)),
                "File moved"@,
                spec_rooted(path@),
                r,
            ),
            final(self)@ == if r.success {
                old(self)@.warmed(name@).file_moved(
                    name@,
                    spec_rooted(path@),
                    spec_rooted(new_path@),
                )
            } else {
                old(self)@.warmed(name@)
            },
    {
        match self.open_for_edit(name.as_str(), &edit_as) {
            Err(reason) => {
                return DefaultReturn::fail(reason, None);
            },
            Ok(_) => {},
        }
        let from = rooted(path.as_str());
        let to = rooted(new_path.as_str());
        proof {
            lemma_rooted_begins_with_slash(new_path@);
        }
        self.move_file(name.as_str(), from.as_str(), to.as_str());
        DefaultReturn::ok(String::from_str("File moved"), Some(from))
    }
}

/// How a request for a file ends that comes from outside: the read is neither
/// let past the checks nor a protected one.
pub open spec fn spec_serve(s: DbView, name: Seq<char>, path: Seq<char>, as_user: Option<Seq<char>>)
    -> ReadVerdict {
    spec_read(s, name, path, as_user, false, false)
}

/// Whether a read hands bytes out.
pub open spec fn hands_out(verdict: ReadVerdict) -> bool {
    verdict matches ReadVerdict::Served { content, .. } && base64_decoded(content) is Some
}

/// The state a request for a file leaves: that of the read, and where bytes
/// were handed out, one request more on the count of the project.
pub open spec fn serve_post(
    s: DbView,
    name: Seq<char>,
    path: Seq<char>,
    as_user: Option<Seq<char>>,
    now: u128,
) -> DbView {
    let verdict = spec_serve(s, name, path, as_user);
    if hands_out(verdict) {
        incr_post(read_post(s, name, verdict), name, now)
    } else {
        read_post(s, name, verdict)
    }
}

impl Database {
    /// Answers a request for a file that comes from outside, and counts it
    /// where it was answered with the file.
    pub fn serve_file_in_project(
        &mut self,
        name: String,
        path: String,
        as_user: Option<String>,
        now: u128,
    ) -> (r: DefaultReturn<Option<Vec<u8>>>)
        requires
            old(self).wf(),
        ensures
            final(self).wf(),
            read_answer(spec_serve(old(self)@, name@, path@, text_option_view(as_user)), r),
            r.success == hands_out(spec_serve(old(self)@, name@, path@, text_option_view(as_user))),
            final(self)@ == serve_post(old(self)@, name@, path@, text_option_view(as_user), now),
    {
        let r = self.get_file_in_project(name.clone(), path, as_user, false, false);
        if r.success {
            self.incr_project_requests(name, now);
        }
        r
    }
}

/// The path under which a project keeps the palette it is scored by.
pub open spec fn spec_score_path() -> Seq<char> {
    "/.secrets/palette.toml"@
}

impl Database {
    /// Reads the palette a project is scored by: a protected read that is
    /// let past the checks of who may see the files.
    pub fn get_project_score(&mut self, project: String) -> (r: DefaultReturn<Option<Vec<u8>>>)
        requires
            old(self).wf(),
        ensures
            final(self).wf(),
            final(self)@ == read_post(
                old(self)@,
                project@,
                spec_read(old(self)@, project@, spec_score_path(), None, true, true),
            ),
            read_answer(spec_read(old(self)@, project@, spec_score_path(), None, true, true), r),
    {
        self.get_file_in_project(project, String::from_str("/.secrets/palette.toml"), None, true, true)
    }
}

} // verus!
