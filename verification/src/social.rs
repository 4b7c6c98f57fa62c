//! The favorite ledger: which users have marked which projects. The records
//! are the ledger; the number of marks of a project is counted in the cache
//! alone, and nothing sets the counter right where it has come apart from
//! the records: a cache that lost its entries counts from zero again.

use vstd::prelude::*;
use vstd::string::*;
use crate::cache::{CacheKey, CacheKeyView, held, spec_decr, spec_incr};
use crate::db::{Database, lemma_index_is};
use crate::model::ProjectFavoriteLog;
use crate::outcome::{DefaultReturn, Failure};
use crate::state::{DbView, favorite_key, is_favorite};
use crate::steps::{lemma_cached_wf, lemma_favorite_added_wf, lemma_favorite_removed_wf};
use crate::text::same_text;

verus! {

/// How a toggle ends.
pub enum ToggleVerdict {
    Refused(Failure),
    /// The user had not marked the project, and has now.
    Added,
    /// The user had marked the project, and has no more.
    Removed,
}

/// How a toggle of the mark of `user` on `project` ends: it is refused where
/// the project is missing and where the user owns it.
pub open spec fn spec_toggle(s: DbView, user: Seq<char>, project: Seq<char>) -> ToggleVerdict {
    match s.project(project) {
        None => ToggleVerdict::Refused(Failure::ProjectMissing),
        Some(p) => if p.owner == user {
            ToggleVerdict::Refused(Failure::IsOwner)
        } else if is_favorite(s.favorites, user, project) {
            ToggleVerdict::Removed
        } else {
            ToggleVerdict::Added
        },
    }
}

/// The state a toggle leaves: the record is added or removed, and the
/// counter of the project goes up or down by one.
pub open spec fn toggle_post(s: DbView, user: Seq<char>, project: Seq<char>) -> DbView {
    let key = CacheKeyView::Favorites(project);
    match spec_toggle(s, user, project) {
        ToggleVerdict::Refused(_) => s.warmed(project),
        ToggleVerdict::Added => s.warmed(project).favorite_added(user, project).cached(
            key,
            spec_incr(held(s.cache, key)),
        ),
        ToggleVerdict::Removed => s.warmed(project).favorite_removed(user, project).cached(
            key,
            spec_decr(held(s.cache, key)),
        ),
    }
}

/// What a toggle answers with.
pub open spec fn toggle_answer(
    verdict: ToggleVerdict,
    project: Seq<char>,
    r: DefaultReturn<Option<String>>,
) -> bool {
    match verdict {
        ToggleVerdict::Refused(reason) => r.failed(reason) && r.payload is None,
        ToggleVerdict::Added => r.succeeded("Favorite added"@) && (r.payload matches Some(p)
            && p@ == project),
        ToggleVerdict::Removed => r.succeeded("Favorite removed"@) && (r.payload matches Some(p)
            && p@ == project),
    }
}

impl Database {
    /// The number of users who marked a project, as the cache counts them.
    pub fn get_project_favorites(&mut self, name: String) -> (r: DefaultReturn<i64>)
        requires
            old(self).wf(),
        ensures
            final(self).wf(),
            final(self)@ == old(self)@.warmed(name@),
            match old(self)@.project(name@) {
                None => r.failed(Failure::ProjectMissing) && r.payload == 0,
                Some(_) => r.succeeded(name@) && r.payload == old(self)@.favorite_count(name@),
            },
    {
        let existing = self.get_project_by_id(name.clone());
        if existing.payload.is_none() {
            return DefaultReturn::fail(Failure::ProjectMissing, 0);
        }
        let count = self.cache.count(&CacheKey::Favorites(name.clone()));
        DefaultReturn::ok(name, count)
    }

    /// The record that a user marked a project. The project itself is looked
    /// up first, unless that check is skipped.
    pub fn get_user_project_favorite(
        &mut self,
        user: String,
        project: String,
        skip_existing_check: bool,
    ) -> (r: DefaultReturn<Option<ProjectFavoriteLog>>)
        requires
            old(self).wf(),
        ensures
            final(self).wf(),
            final(self)@ == if skip_existing_check {
                old(self)@
            } else {
                old(self)@.warmed(project@)
            },
            if !skip_existing_check && old(self)@.project(project@) is None {
                r.failed(Failure::ProjectMissing) && r.payload is None
            } else if is_favorite(old(self)@.favorites, user@, project@) {
                r.succeeded(project@) && (r.payload matches Some(f) && f@.user == user@
                    && f@.project == project@)
            } else {
                r.failed(Failure::FavoriteMissing) && r.payload is None
            },
    {
        if !skip_existing_check {
            let existing = self.get_project_by_id(project.clone());
            if existing.payload.is_none() {
                return DefaultReturn::fail(Failure::ProjectMissing, None);
            }
        }
        match self.favorite_position(user.as_str(), project.as_str()) {
            Some(_) => DefaultReturn::ok(project.clone(), Some(ProjectFavoriteLog { user, project })),
            None => DefaultReturn::fail(Failure::FavoriteMissing, None),
        }
    }

    /// Puts the mark of a user on a project, or takes it off where it is on.
    pub fn toggle_user_project_favorite(&mut self, user: String, project: String) -> (r:
        DefaultReturn<Option<String>>)
        requires
            old(self).wf(),
        ensures
            final(self).wf(),
            final(self)@ == toggle_post(old(self)@, user@, project@),
            toggle_answer(spec_toggle(old(self)@, user@, project@), project@, r),
    {
        let ghost s = self@;
        let existing = self.get_project_by_id(project.clone());
        let owner = match existing.payload {
            Some(p) => p.owner,
            None => {
                return DefaultReturn::fail(Failure::ProjectMissing, None);
            },
        };
        if same_text(owner.as_str(), user.as_str()) {
            return DefaultReturn::fail(Failure::IsOwner, None);
        }
        let key = CacheKey::Favorites(project.clone());
        proof {
            assert(held(self@.cache, key@) == held(s.cache, key@));
            if self@.cache.contains_key(key@) {
                assert(self@.agrees(key@, self@.cache[key@]));
            }
        }
        match self.favorite_position(user.as_str(), project.as_str()) {
            Some(i) => {
                proof {
                    lemma_index_is(self@.favorites, favorite_key(), (user@, project@), i as int);
                    lemma_favorite_removed_wf(self@, user@, project@);
                    lemma_cached_wf(
                        self@.favorite_removed(user@, project@),
                        key@,
                        spec_decr(held(s.cache, key@)),
                    );
                }
                self.favorites.remove(i);
                assert(self@.favorites =~= s.favorites.remove(i as int));
                self.cache.decr(key);
                DefaultReturn::ok(String::from_str("Favorite removed"), Some(project))
            },
            None => {
                proof {
                    lemma_favorite_added_wf(self@, user@, project@);
                    lemma_cached_wf(
                        self@.favorite_added(user@, project@),
                        key@,
                        spec_incr(held(s.cache, key@)),
                    );
                }
                self.favorites.push(ProjectFavoriteLog { user, project: project.clone() });
                assert(self@.favorites =~= s.favorites.push(
                    crate::model::FavoriteView { user: user@, project: project@ },
                ));
                self.cache.incr(key);
                DefaultReturn::ok(String::from_str("Favorite added"), Some(project))
            },
        }
    }
}

} // verus!
