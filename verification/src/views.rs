//! What the pages of a project show: the record, the files, and the
//! counters, gathered in one place.

use vstd::prelude::*;
use vstd::string::*;
use crate::cache::CacheKey;
use crate::db::Database;
use crate::identity::texts;
use crate::model::{
    PrivateMetadataView, Project, ProjectFilePrivacy, ProjectPrivateMetadata, ProjectView,
};
use crate::outcome::{DefaultReturn, Failure};
use crate::state::{DbView, is_favorite, paths_of};

verus! {

/// What a page shows of a project.
pub struct ProjectPage {
    pub project: Project,
    /// The paths of the files of the project.
    pub files: Vec<String>,
    /// The number of users who marked the project.
    pub favorites_count: i64,
    /// The number of requests the project has served.
    pub asset_requests: i64,
    /// Whether the one who looks has marked the project.
    pub has_favorited: bool,
}

/// The record of a project with the time of its creation filled in: a
/// project that bears none was created when its billing period began.
pub open spec fn dated(p: ProjectView) -> ProjectView {
    if p.private_metadata.created == 0 {
        ProjectView {
            private_metadata: PrivateMetadataView { created: p.timestamp, ..p.private_metadata },
            ..p
        }
    } else {
        p
    }
}

/// The state after a page of the project `name` was shown: the record is in
/// the cache, and bears the time of its creation.
pub open spec fn viewed(s: DbView, name: Seq<char>) -> DbView {
    match s.project(name) {
        Some(p) => if p.private_metadata.created == 0 {
            s.touched(s.project_index(name), dated(p))
        } else {
            s.warmed(name)
        },
        None => s,
    }
}

/// What a page of the project `p` shows to `user`, in the state `s`.
pub open spec fn shows(s: DbView, p: ProjectView, user: Option<Seq<char>>, page: ProjectPage)
    -> bool {
    &&& page.project@ == p
    &&& texts(page.files@) == paths_of(s.files, p.name)
    &&& page.favorites_count == s.favorite_count(p.name)
    &&& page.asset_requests == s.usage(p.name)
    &&& page.has_favorited == (user matches Some(u) && is_favorite(s.favorites, u, p.name))
}

impl Database {
    /// Gathers what a page of a project shows, and fills in the time of the
    /// creation of a project that bears none.
    fn gather(&mut self, name: &str, user: Option<&str>, public: bool) -> (r: DefaultReturn<
        Option<ProjectPage>,
    >)
        requires
            old(self).wf(),
        ensures
            final(self).wf(),
            final(self)@ == viewed(old(self)@, name@),
            match old(self)@.project(name@) {
                None => r.failed(Failure::ProjectMissing) && r.payload is None,
                Some(p) => if public && p.metadata.file_privacy != ProjectFilePrivacy::Public {
                    r.failed(Failure::ListingNotAllowed) && r.payload is None
                } else {
                    &&& r.succeeded("Project exists"@)
                    &&& r.payload matches Some(page)
                    &&& shows(
                        old(self)@,
                        p,
                        match user {
                            Some(u) => Some(u@),
                            None => None,
                        },
                        page,
                    )
                },
            },
    {
        let ghost s = self@;
        let (i, project) = match self.locate(name) {
            Some(found) => found,
            None => {
                return DefaultReturn::fail(Failure::ProjectMissing, None);
            },
        };
        if project.private_metadata.created == 0 {
            let metadata = ProjectPrivateMetadata {
                kind: project.private_metadata.kind,
                limit: project.private_metadata.limit,
                created: project.timestamp,
                image: project.private_metadata.image.clone(),
                cid: crate::model::clone_text_option(&project.private_metadata.cid),
                container: project.private_metadata.container,
            };
            self.put_private_metadata(i, project.clone(), metadata);
            assert(self@.cache =~= viewed(s, name@).cache);
        }
        match project.metadata.file_privacy {
            ProjectFilePrivacy::Public => {},
            _ => {
                if public {
                    return DefaultReturn::fail(Failure::ListingNotAllowed, None);
                }
            },
        }
        let has_favorited = match user {
            Some(u) => self.favorite_position(u, name).is_some(),
            None => false,
        };
        let page = ProjectPage {
            files: self.paths_in(name),
            favorites_count: self.cache.count(&CacheKey::Favorites(String::from_str(name))),
            asset_requests: self.cache.count(&CacheKey::Requests(String::from_str(name))),
            has_favorited,
            project,
        };
        DefaultReturn::ok(String::from_str("Project exists"), Some(page))
    }

    /// What the dashboard shows of a project: its record, all its files,
    /// and its counters.
    pub fn project_view(&mut self, name: String) -> (r: DefaultReturn<Option<ProjectPage>>)
        requires
            old(self).wf(),
        ensures
            final(self).wf(),
            final(self)@ == viewed(old(self)@, name@),
            match old(self)@.project(name@) {
                None => r.failed(Failure::ProjectMissing) && r.payload is None,
                Some(p) => r.succeeded("Project exists"@) && (r.payload matches Some(page)
                    && shows(old(self)@, p, None, page)),
            },
    {
        self.gather(name.as_str(), None, false)
    }

    /// What the public page of a project shows to a user: the same, and
    /// whether the user has marked the project. A project whose files are
    /// not public has no public page.
    pub fn project_public_view(&mut self, name: String, user: String) -> (r: DefaultReturn<
        Option<ProjectPage>,
    >)
        requires
            old(self).wf(),
        ensures
            final(self).wf(),
            final(self)@ == viewed(old(self)@, name@),
            match old(self)@.project(name@) {
                None => r.failed(Failure::ProjectMissing) && r.payload is None,
                Some(p) => if p.metadata.file_privacy != ProjectFilePrivacy::Public {
                    r.failed(Failure::ListingNotAllowed) && r.payload is None
                } else {
                    r.succeeded("Project exists"@) && (r.payload matches Some(page) && shows(
                        old(self)@,
                        p,
                        Some(user@),
                        page,
                    ))
                },
            },
    {
        self.gather(name.as_str(), Some(user.as_str()), true)
    }
}

} // verus!
