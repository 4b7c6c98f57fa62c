//! What holds of the operations of the store taken together.

use vstd::prelude::*;
use crate::cache::{CacheKeyView, CacheValueView, held, spec_decr, spec_incr};
use crate::codec::base64_decoded;
use crate::db::spec_edit_refusal;
use crate::files::{
    hands_out, read_answer, read_post, ReadVerdict, serve_post, spec_read, spec_serve,
    spec_update_refusal,
};
use crate::model::{ProjectRequestLimit, ProjectView};
use crate::outcome::{DefaultReturn, Failure};
use crate::paths::{lemma_rooted_begins_with_slash, spec_rooted, spec_served_path};
use crate::projects::{create_post, incr_post, spec_create};
use crate::quota::{spec_period_elapsed, spec_within_quota};
use crate::rows::{lemma_find_is_row, lemma_found};
use crate::social::{spec_toggle, toggle_post, ToggleVerdict};
use crate::state::{
    Brief, DbView, has_project, insert_by_age, is_favorite, lemma_warmed_wf, newest_first,
    paths_of, project_name, projects_of, spec_page,
};
use crate::steps::{
    lemma_cached_wf, lemma_created_wf, lemma_deleted_wf, lemma_favorite_added_wf,
    lemma_favorite_removed_wf, lemma_file_put_wf, lemma_replaced_wf,
};

verus! {

/// A project that was created is found at once, under its name, with its
/// creator as the owner and a billing period that begins at the time of the
/// creation.
pub proof fn law_created_project_is_found(
    s: DbView,
    name: Seq<char>,
    user: Seq<char>,
    now: u128,
)
    requires
        s.wf(),
        spec_create(s, name, Some(user), now) is Created,
    ensures
        create_post(s, name, spec_create(s, name, Some(user), now)).wf(),
        create_post(s, name, spec_create(s, name, Some(user), now)).project(name) matches Some(p)
            && p.name == name && p.owner == user && p.timestamp == now,
{
    lemma_created_wf(s, ProjectView::fresh(name, user, now));
}

/// A name that is taken by a project without files is not refused: the
/// project changes hands and belongs to the one who asked for the name.
pub proof fn law_empty_project_is_reclaimed(
    s: DbView,
    name: Seq<char>,
    user: Seq<char>,
    now: u128,
)
    requires
        s.wf(),
        s.project(name) is Some,
        paths_of(s.files, name).len() == 0,
        s.user(user) is Some,
    ensures
        spec_create(s, name, Some(user), now) is Reclaimed,
        create_post(s, name, spec_create(s, name, Some(user), now)).wf(),
        create_post(s, name, spec_create(s, name, Some(user), now)).project(name) matches Some(p)
            && p.owner == user && p.name == name,
{
    let i = lemma_find_is_row(s.projects, project_name(), name);
    let p = s.projects[i];
    lemma_found(s.projects, project_name(), name, s.project_index(name));
    lemma_warmed_wf(s, name);
    if p.owner != user {
        lemma_replaced_wf(s, s.project_index(name), ProjectView { owner: user, ..p });
    }
}

/// How a read of `asked` ends where the file under `path` holds `content`:
/// it is refused for who reads or for how much was read, or it serves
/// `content`.
pub open spec fn serves(verdict: ReadVerdict, path: Seq<char>, content: Seq<char>) -> bool {
    match verdict {
        ReadVerdict::Served { path: p, content: c } => p == path && c == content,
        ReadVerdict::Refused(reason) => reason == Failure::ViewNotAllowed || reason
            == Failure::ProtectedPath || reason == Failure::OwnerInvalid || reason
            == Failure::RequestLimitExceeded,
    }
}

/// After a file was stored, a read that leads to its path serves what was
/// stored, and the cache holds what was stored.
pub proof fn law_stored_file_is_read(
    s: DbView,
    name: Seq<char>,
    path: Seq<char>,
    content: Seq<char>,
    edit_as: Option<Seq<char>>,
    asked: Seq<char>,
    as_user: Option<Seq<char>>,
    bypass: bool,
    protected: bool,
)
    requires
        s.wf(),
        spec_edit_refusal(s, name, edit_as) is None,
        s.project(name) matches Some(p) && spec_served_path(asked, p.metadata.clean_paths)
            == spec_rooted(path),
    ensures
        s.warmed(name).file_put(name, spec_rooted(path), content).wf(),
        serves(
            spec_read(
                s.warmed(name).file_put(name, spec_rooted(path), content),
                name,
                asked,
                as_user,
                bypass,
                protected,
            ),
            spec_rooted(path),
            content,
        ),
        held(
            s.warmed(name).file_put(name, spec_rooted(path), content).cache,
            CacheKeyView::Path(name, spec_rooted(path)),
        ) == Some(CacheValueView::Content(content)),
{
    lemma_warmed_wf(s, name);
    lemma_rooted_begins_with_slash(path);
    let w = s.warmed(name);
    let i = lemma_find_is_row(s.projects, project_name(), name);
    assert(has_project(w.projects, name));
    lemma_file_put_wf(w, name, spec_rooted(path), content);
}

/// After a file was updated, a read that leads to its path serves the new
/// content and never the old, whether it is answered from the cache or from
/// the table: the cache holds the new content.
pub proof fn law_updated_file_is_read(
    s: DbView,
    name: Seq<char>,
    path: Seq<char>,
    content: Seq<char>,
    edit_as: Option<Seq<char>>,
    asked: Seq<char>,
    as_user: Option<Seq<char>>,
    bypass: bool,
    protected: bool,
)
    requires
        s.wf(),
        spec_update_refusal(s, name, path, edit_as) is None,
        s.project(name) matches Some(p) && spec_served_path(asked, p.metadata.clean_paths)
            == spec_rooted(path),
    ensures
        s.warmed(name).file_put(name, spec_rooted(path), content).wf(),
        serves(
            spec_read(
                s.warmed(name).file_put(name, spec_rooted(path), content),
                name,
                asked,
                as_user,
                bypass,
                protected,
            ),
            spec_rooted(path),
            content,
        ),
        held(
            s.warmed(name).file_put(name, spec_rooted(path), content).cache,
            CacheKeyView::Path(name, spec_rooted(path)),
        ) == Some(CacheValueView::Content(content)),
{
    law_stored_file_is_read(s, name, path, content, edit_as, asked, as_user, bypass, protected);
}

/// A read that gets as far as the ceiling on requests is refused for it
/// exactly when the project has served as many requests as the tier of its
/// owner allows: under the default tier the read after 999,999 requests is
/// answered, and the read after 1,000,000 is refused.
pub proof fn law_quota_is_a_ceiling(
    s: DbView,
    name: Seq<char>,
    path: Seq<char>,
    as_user: Option<Seq<char>>,
    bypass: bool,
    protected: bool,
)
    requires
        s.wf(),
        s.project(name) is Some,
        s.user(s.project(name).unwrap().owner) is Some,
        !(spec_read(s, name, path, as_user, bypass, protected) matches ReadVerdict::Refused(
            reason,
        ) && (reason == Failure::ViewNotAllowed || reason == Failure::ProtectedPath)),
    ensures
        spec_read(s, name, path, as_user, bypass, protected) == ReadVerdict::Refused(
            Failure::RequestLimitExceeded,
        ) <==> !spec_within_quota(
            s.user(s.project(name).unwrap().owner).unwrap().capabilities.request_limit,
            s.usage(name),
        ),
        s.user(s.project(name).unwrap().owner).unwrap().capabilities.request_limit
            == ProjectRequestLimit::Default ==> (spec_read(s, name, path, as_user, bypass, protected)
            == ReadVerdict::Refused(Failure::RequestLimitExceeded) <==> s.usage(name)
            >= 1_000_000),
{
}

/// Counting a request raises the count of the project by one, whether or not
/// a new billing period begins, and leaves the project and its owner as they
/// were.
pub proof fn law_count_goes_up_by_one(s: DbView, name: Seq<char>, now: u128)
    requires
        s.wf(),
        s.project(name) is Some,
        s.usage(name) < i64::MAX,
    ensures
        incr_post(s, name, now).wf(),
        incr_post(s, name, now).usage(name) == s.usage(name) + 1,
        incr_post(s, name, now).project(name) matches Some(p) && p.owner == s.project(
            name,
        ).unwrap().owner,
        incr_post(s, name, now).users == s.users,
{
    let key = CacheKeyView::Requests(name);
    let p = s.project(name).unwrap();
    let i = lemma_find_is_row(s.projects, project_name(), name);
    lemma_found(s.projects, project_name(), name, s.project_index(name));
    lemma_warmed_wf(s, name);
    let rolled = if spec_period_elapsed(p.timestamp, now) {
        s.replaced(s.project_index(name), ProjectView { timestamp: now, ..p })
    } else {
        s.warmed(name)
    };
    if spec_period_elapsed(p.timestamp, now) {
        lemma_replaced_wf(s, s.project_index(name), ProjectView { timestamp: now, ..p });
    }
    if s.cache.contains_key(key) {
        assert(s.agrees(key, s.cache[key]));
    }
    lemma_cached_wf(rolled, key, spec_incr(held(s.cache, key)));
}

/// A toggle that follows a toggle undoes it: the user has marked the project
/// exactly if they had before, and the counter of the project is back at its
/// value. This asks that the first toggle can move the counter: a counter at
/// its greatest value does not go up, and one at its least does not go down.
pub proof fn law_toggle_twice_is_no_change(s: DbView, user: Seq<char>, project: Seq<char>)
    requires
        s.wf(),
        spec_toggle(s, user, project) is Added ==> s.favorite_count(project) < i64::MAX,
        spec_toggle(s, user, project) is Removed ==> s.favorite_count(project) > i64::MIN,
    ensures
        toggle_post(s, user, project).wf(),
        toggle_post(toggle_post(s, user, project), user, project).wf(),
        toggle_post(toggle_post(s, user, project), user, project).favorite_count(project)
            == s.favorite_count(project),
        is_favorite(
            toggle_post(toggle_post(s, user, project), user, project).favorites,
            user,
            project,
        ) == is_favorite(s.favorites, user, project),
{
    let key = CacheKeyView::Favorites(project);
    let w = s.warmed(project);
    lemma_warmed_wf(s, project);
    if s.cache.contains_key(key) {
        assert(s.agrees(key, s.cache[key]));
    }
    let t = toggle_post(s, user, project);
    match spec_toggle(s, user, project) {
        ToggleVerdict::Refused(_) => {
            lemma_warmed_wf(w, project);
            assert(t.project(project) == s.project(project));
            assert(toggle_post(t, user, project) == t.warmed(project));
            assert(t.warmed(project).favorite_count(project) == s.favorite_count(project));
        },
        ToggleVerdict::Added => {
            lemma_favorite_added_wf(w, user, project);
            let a = w.favorite_added(user, project);
            lemma_cached_wf(a, key, spec_incr(held(s.cache, key)));
            assert(t.project(project) == s.project(project));
            assert(spec_toggle(t, user, project) is Removed);
            let tw = t.warmed(project);
            lemma_warmed_wf(t, project);
            assert(tw.favorites == t.favorites);
            lemma_favorite_removed_wf(tw, user, project);
            let b = tw.favorite_removed(user, project);
            lemma_cached_wf(b, key, spec_decr(held(t.cache, key)));
        },
        ToggleVerdict::Removed => {
            lemma_favorite_removed_wf(w, user, project);
            let a = w.favorite_removed(user, project);
            lemma_cached_wf(a, key, spec_decr(held(s.cache, key)));
            assert(t.project(project) == s.project(project));
            assert(spec_toggle(t, user, project) is Added);
            let tw = t.warmed(project);
            lemma_warmed_wf(t, project);
            assert(tw.favorites == t.favorites);
            lemma_favorite_added_wf(tw, user, project);
            let b = tw.favorite_added(user, project);
            lemma_cached_wf(b, key, spec_incr(held(t.cache, key)));
        },
    }
}

/// One request for a file, as it comes from outside.
pub struct Request {
    pub path: Seq<char>,
    pub as_user: Option<Seq<char>>,
    pub now: u128,
}

/// The state after a run of requests for files of one project.
pub open spec fn after_requests(s: DbView, name: Seq<char>, requests: Seq<Request>) -> DbView
    decreases requests.len(),
{
    if requests.len() == 0 {
        s
    } else {
        let before = after_requests(s, name, requests.drop_last());
        let last = requests.last();
        serve_post(before, name, last.path, last.as_user, last.now)
    }
}

/// Every request of the run was answered with the file.
pub open spec fn all_answered(s: DbView, name: Seq<char>, requests: Seq<Request>) -> bool
    decreases requests.len(),
{
    if requests.len() == 0 {
        true
    } else {
        let before = after_requests(s, name, requests.drop_last());
        let last = requests.last();
        all_answered(s, name, requests.drop_last()) && hands_out(
            spec_serve(before, name, last.path, last.as_user),
        )
    }
}

/// A request that is answered with the file is counted once; the project
/// keeps its owner, and what the store knows of users stays.
pub proof fn law_answered_request_is_counted(
    s: DbView,
    name: Seq<char>,
    path: Seq<char>,
    as_user: Option<Seq<char>>,
    now: u128,
)
    requires
        s.wf(),
        s.usage(name) < i64::MAX,
    ensures
        serve_post(s, name, path, as_user, now).wf(),
        serve_post(s, name, path, as_user, now).users == s.users,
        serve_post(s, name, path, as_user, now).project(name) is Some == s.project(name) is Some,
        s.project(name) matches Some(p) ==> serve_post(s, name, path, as_user, now).project(
            name,
        ).unwrap().owner == p.owner,
        serve_post(s, name, path, as_user, now).usage(name) == if hands_out(
            spec_serve(s, name, path, as_user),
        ) {
            s.usage(name) + 1
        } else {
            s.usage(name) as int
        },
{
    let verdict = spec_serve(s, name, path, as_user);
    lemma_warmed_wf(s, name);
    let w = s.warmed(name);
    let read = read_post(s, name, verdict);
    match verdict {
        ReadVerdict::Served { path: served, content } => {
            if base64_decoded(content) is Some {
                lemma_cached_wf(
                    w,
                    CacheKeyView::Path(name, served),
                    CacheValueView::Content(content),
                );
            }
        },
        ReadVerdict::Refused(_) => {},
    }
    assert(read.wf());
    assert(read.usage(name) == s.usage(name));
    assert(read.project(name) == s.project(name));
    if hands_out(verdict) {
        law_count_goes_up_by_one(read, name, now);
    }
}

/// After a run of requests that were all answered with the file, the count
/// of the project is up by the length of the run.
pub proof fn law_requests_add_up(s: DbView, name: Seq<char>, requests: Seq<Request>)
    requires
        s.wf(),
        s.project(name) is Some,
        all_answered(s, name, requests),
        s.usage(name) + requests.len() <= i64::MAX,
    ensures
        after_requests(s, name, requests).wf(),
        after_requests(s, name, requests).users == s.users,
        after_requests(s, name, requests).project(name) matches Some(p) && p.owner == s.project(
            name,
        ).unwrap().owner,
        after_requests(s, name, requests).usage(name) == s.usage(name) + requests.len(),
    decreases requests.len(),
{
    if requests.len() > 0 {
        law_requests_add_up(s, name, requests.drop_last());
        let before = after_requests(s, name, requests.drop_last());
        let last = requests.last();
        law_answered_request_is_counted(before, name, last.path, last.as_user, last.now);
    }
}

/// Under the default tier, with the count at zero to begin with, the
/// 1,000,000th request is not refused for the ceiling, and the 1,000,001st
/// is: after `n` requests that were answered with the file, the next one is
/// refused for the ceiling exactly if `n` has reached 1,000,000, whoever
/// asks and whatever new billing periods began in between.
pub proof fn law_default_ceiling_is_a_million(
    s: DbView,
    name: Seq<char>,
    requests: Seq<Request>,
    next: Request,
)
    requires
        s.wf(),
        s.usage(name) == 0,
        s.project(name) matches Some(p) && (s.user(p.owner) matches Some(owner)
            && owner.capabilities.request_limit == ProjectRequestLimit::Default),
        all_answered(s, name, requests),
        requests.len() <= i64::MAX,
        !(spec_serve(after_requests(s, name, requests), name, next.path, next.as_user)
            matches ReadVerdict::Refused(reason) && (reason == Failure::ViewNotAllowed || reason
            == Failure::ProtectedPath)),
    ensures
        spec_serve(after_requests(s, name, requests), name, next.path, next.as_user)
            == ReadVerdict::Refused(Failure::RequestLimitExceeded) <==> requests.len()
            >= 1_000_000,
{
    law_requests_add_up(s, name, requests);
    let t = after_requests(s, name, requests);
    law_quota_is_a_ceiling(t, name, next.path, next.as_user, false, false);
}

/// A project that was deleted is gone: it is not found, none of its files is,
/// and the cache holds neither its record nor any of its files.
pub proof fn law_deleted_project_is_gone(s: DbView, name: Seq<char>, deleter: Seq<char>)
    requires
        s.wf(),
        s.project(name) is Some,
    ensures
        s.deleted(s.project_index(name), deleter).wf(),
        s.deleted(s.project_index(name), deleter).project(name) is None,
        forall|path: Seq<char>| #[trigger]
            s.deleted(s.project_index(name), deleter).file(name, path) is None,
        !s.deleted(s.project_index(name), deleter).cache.contains_key(CacheKeyView::Project(name)),
        forall|path: Seq<char>|
            !(#[trigger] s.deleted(s.project_index(name), deleter).cache.contains_key(
                CacheKeyView::Path(name, path),
            )),
{
    let i = lemma_find_is_row(s.projects, project_name(), name);
    lemma_found(s.projects, project_name(), name, s.project_index(name));
    lemma_deleted_wf(s, s.project_index(name), deleter);
}

/// The rows fall in the start of their billing period.
pub open spec fn falls(rows: Seq<Brief>) -> bool {
    forall|a: int, b: int|
        0 <= a <= b < rows.len() ==> (#[trigger] rows[a]).timestamp >= (
        #[trigger] rows[b]).timestamp
}

proof fn lemma_insert_by_age(sorted: Seq<Brief>, p: Brief)
    requires
        falls(sorted),
    ensures
        falls(insert_by_age(sorted, p)),
        insert_by_age(sorted, p).to_multiset() == sorted.to_multiset().insert(p),
        forall|k: int|
            0 <= k < insert_by_age(sorted, p).len() ==> (#[trigger] insert_by_age(sorted, p)[k])
                == p || exists|j: int|
                0 <= j < sorted.len() && sorted[j] == insert_by_age(sorted, p)[k],
    decreases sorted.len(),
{
    broadcast use vstd::seq_lib::group_to_multiset_ensures;

    let out = insert_by_age(sorted, p);
    if sorted.len() == 0 {
        assert(seq![p] =~= sorted.push(p));
    } else if sorted.last().timestamp >= p.timestamp {
        assert forall|a: int, b: int| 0 <= a <= b < out.len() implies (#[trigger] out[a]).timestamp
            >= (#[trigger] out[b]).timestamp by {
            if b == sorted.len() && a < sorted.len() {
                assert(sorted[a].timestamp >= sorted[sorted.len() - 1].timestamp);
            }
        }
        assert forall|k: int| 0 <= k < out.len() implies (#[trigger] out[k]) == p || exists|
            j: int,
        |
            0 <= j < sorted.len() && sorted[j] == out[k] by {
            if k < sorted.len() {
                assert(sorted[k] == out[k]);
            }
        }
    } else {
        let front = sorted.drop_last();
        assert(falls(front)) by {
            assert forall|a: int, b: int| 0 <= a <= b < front.len() implies (
            #[trigger] front[a]).timestamp >= (#[trigger] front[b]).timestamp by {
                assert(front[a] == sorted[a] && front[b] == sorted[b]);
            }
        }
        lemma_insert_by_age(front, p);
        let inner = insert_by_age(front, p);
        assert(front.push(sorted.last()) =~= sorted);
        assert(front.to_multiset().insert(p).insert(sorted.last()) =~= front.to_multiset().insert(
            sorted.last(),
        ).insert(p));
        assert forall|a: int, b: int| 0 <= a <= b < out.len() implies (#[trigger] out[a]).timestamp
            >= (#[trigger] out[b]).timestamp by {
            if b == inner.len() && a < inner.len() {
                if inner[a] != p {
                    let j = choose|j: int| 0 <= j < front.len() && front[j] == inner[a];
                    assert(sorted[j] == inner[a]);
                    assert(sorted[j].timestamp >= sorted[sorted.len() - 1].timestamp);
                }
            } else if b < inner.len() {
                assert(out[a] == inner[a] && out[b] == inner[b]);
            }
        }
        assert forall|k: int| 0 <= k < out.len() implies (#[trigger] out[k]) == p || exists|
            j: int,
        |
            0 <= j < sorted.len() && sorted[j] == out[k] by {
            if k < inner.len() {
                if inner[k] != p {
                    let j = choose|j: int| 0 <= j < front.len() && front[j] == inner[k];
                    assert(sorted[j] == out[k]);
                }
            } else {
                assert(sorted[sorted.len() - 1] == out[k]);
            }
        }
    }
}

/// A listing holds the projects of the owner, each once, the latest billing
/// period first.
pub proof fn law_listing_is_newest_first(rows: Seq<ProjectView>, owner: Seq<char>)
    ensures
        falls(newest_first(projects_of(rows, owner))),
        newest_first(projects_of(rows, owner)).to_multiset() == projects_of(
            rows,
            owner,
        ).to_multiset(),
        newest_first(projects_of(rows, owner)).len() == projects_of(rows, owner).len(),
{
    lemma_newest_first(projects_of(rows, owner));
}

proof fn lemma_newest_first(rows: Seq<Brief>)
    ensures
        falls(newest_first(rows)),
        newest_first(rows).to_multiset() == rows.to_multiset(),
        newest_first(rows).len() == rows.len(),
    decreases rows.len(),
{
    broadcast use vstd::seq_lib::group_to_multiset_ensures;

    if rows.len() > 0 {
        lemma_newest_first(rows.drop_last());
        lemma_insert_by_age(newest_first(rows.drop_last()), rows.last());
        assert(rows.drop_last().push(rows.last()) =~= rows);
    }
    rows.to_multiset_ensures();
    newest_first(rows).to_multiset_ensures();
}

/// Content that was encoded and stored comes back byte for byte: a read that
/// leads to the path of the file and is answered hands out the bytes that
/// the stored text was made of.
pub proof fn law_stored_bytes_come_back(
    s: DbView,
    name: Seq<char>,
    path: Seq<char>,
    bytes: Seq<u8>,
    content: Seq<char>,
    edit_as: Option<Seq<char>>,
    asked: Seq<char>,
    as_user: Option<Seq<char>>,
    bypass: bool,
    protected: bool,
    r: DefaultReturn<Option<Vec<u8>>>,
)
    requires
        s.wf(),
        spec_edit_refusal(s, name, edit_as) is None,
        s.project(name) matches Some(p) && spec_served_path(asked, p.metadata.clean_paths)
            == spec_rooted(path),
        base64_decoded(content) == Some(bytes),
        read_answer(
            spec_read(
                s.warmed(name).file_put(name, spec_rooted(path), content),
                name,
                asked,
                as_user,
                bypass,
                protected,
            ),
            r,
        ),
        r.success,
    ensures
        r.payload matches Some(b) && b@ == bytes,
{
    law_stored_file_is_read(s, name, path, content, edit_as, asked, as_user, bypass, protected);
}

/// The cache changes no answer: two well-formed stores that hold the same
/// rows and count the same requests answer every read alike, whatever else
/// their caches hold.
pub proof fn law_cache_changes_no_answer(
    s: DbView,
    t: DbView,
    name: Seq<char>,
    path: Seq<char>,
    as_user: Option<Seq<char>>,
    bypass: bool,
    protected: bool,
)
    requires
        s.wf(),
        t.wf(),
        s.projects == t.projects,
        s.files == t.files,
        s.users == t.users,
        s.usage(name) == t.usage(name),
    ensures
        spec_read(s, name, path, as_user, bypass, protected) == spec_read(
            t,
            name,
            path,
            as_user,
            bypass,
            protected,
        ),
        s.project(name) == t.project(name),
        forall|owner: Seq<char>, offset: int| #[trigger]
            spec_page(s.projects, owner, offset) == spec_page(t.projects, owner, offset),
{
}

} // verus!
