//! The build container of a container-backed project. The daemon that runs
//! containers is not part of the store: the store says what to ask of it,
//! and records what it answered.

use vstd::prelude::*;
use vstd::string::*;
use crate::db::Database;
use crate::model::{
    clone_text_option, ContainerState, PrivateMetadataView, Project, ProjectPrivateMetadata,
    ProjectType, ProjectView,
};
use crate::outcome::{DefaultReturn, Failure};
use crate::state::DbView;
use crate::text::{decimal, spec_decimal};

verus! {

/// What the daemon is asked for when a container is created.
pub struct ContainerRequest {
    /// The image to run.
    pub image: String,
    /// The environment of the container: where the service is reached, and
    /// which project the container builds.
    pub env: Vec<String>,
    /// Host names that the container is to resolve.
    pub extra_hosts: Vec<String>,
}

/// `VIBRANT_URL="http://localhost:{port}"`
pub open spec fn spec_url_variable(port: u16) -> Seq<char> {
    "VIBRANT_URL=\"http://localhost:"@ + spec_decimal(port as nat) + "\""@
}

/// `PROJECT="{name}"`
pub open spec fn spec_project_variable(name: Seq<char>) -> Seq<char> {
    "PROJECT=\""@ + name + "\""@
}

/// The host name under which a container reaches the machine it runs on.
pub open spec fn spec_host_gateway() -> Seq<char> {
    "host.docker.internal:host-gateway"@
}

/// The variable that tells a container where the service is reached.
pub fn url_variable(port: u16) -> (r: String)
    ensures
        r@ == spec_url_variable(port),
{
    String::from_str("VIBRANT_URL=\"http://localhost:").concat(decimal(port as u64).as_str()).concat(
        "\"",
    )
}

/// The variable that tells a container which project it builds.
pub fn project_variable(name: &str) -> (r: String)
    ensures
        r@ == spec_project_variable(name@),
{
    String::from_str("PROJECT=\"").concat(name).concat("\"")
}

/// The state of a project's container, read off its record: the project is
/// not container-backed, or it holds no container, or it holds this one.
pub enum ContainerVerdict {
    Refused(Failure),
    NotBacked,
    Holds(Seq<char>),
    Empty,
}

/// The state of the container of the project `name`, read off its record.
pub open spec fn spec_container(s: DbView, name: Seq<char>) -> ContainerVerdict {
    match s.project(name) {
        None => ContainerVerdict::Refused(Failure::ProjectMissing),
        Some(p) => if p.private_metadata.kind != ProjectType::StaticContainer {
            ContainerVerdict::NotBacked
        } else {
            match p.private_metadata.cid {
                Some(cid) => ContainerVerdict::Holds(cid),
                None => ContainerVerdict::Empty,
            }
        },
    }
}

/// The record of a project after its container came into `state`, with the
/// identifier `cid` or with none.
pub open spec fn with_container(p: ProjectView, cid: Option<Seq<char>>, state: ContainerState)
    -> ProjectView {
    ProjectView {
        private_metadata: PrivateMetadataView { cid, container: state, ..p.private_metadata },
        ..p
    }
}

/// The state of the store after the container of the project `name` came
/// into `state`: the record in the table and its copy in the cache change,
/// and nothing else.
pub open spec fn container_post(
    s: DbView,
    name: Seq<char>,
    cid: Option<Seq<char>>,
    state: ContainerState,
) -> DbView {
    match s.project(name) {
        Some(p) => s.touched(s.project_index(name), with_container(p, cid, state)),
        None => s,
    }
}

/// What an operation on a container answers with where it hands a container
/// identifier back.
pub open spec fn container_answer(message: Seq<char>, cid: Seq<char>, r: DefaultReturn<
    Option<String>,
>) -> bool {
    r.succeeded(message) && (r.payload matches Some(c) && c@ == cid)
}

/// The answer for a project that has no container to work on.
pub open spec fn not_backed_answer(r: DefaultReturn<Option<String>>) -> bool {
    r.succeeded("Project is not a container project"@) && r.payload is None
}

impl Database {
    /// Puts the container of row `i`, which holds `project`, into `state`.
    fn record_container(&mut self, i: usize, project: Project, cid: Option<String>, state: ContainerState)
        requires
            old(self).wf(),
            i < old(self)@.projects.len(),
            old(self)@.projects[i as int] == project@,
        ensures
            final(self).wf(),
            final(self)@ == old(self)@.touched(
                i as int,
                with_container(project@, crate::model::text_option_view(cid), state),
            ),
    {
        let metadata = ProjectPrivateMetadata {
            kind: project.private_metadata.kind,
            limit: project.private_metadata.limit,
            created: project.private_metadata.created,
            image: project.private_metadata.image.clone(),
            cid,
            container: state,
        };
        self.put_private_metadata(i, project, metadata);
    }

    /// What to ask of the daemon to create the container of a project:
    /// nothing, for a project that is not container-backed.
    pub fn container_request(&mut self, name: String, port: u16) -> (r: DefaultReturn<
        Option<ContainerRequest>,
    >)
        requires
            old(self).wf(),
        ensures
            final(self).wf(),
            final(self)@ == old(self)@.warmed(name@),
            match old(self)@.project(name@) {
                None => r.failed(Failure::ProjectMissing) && r.payload is None,
                Some(p) => if p.private_metadata.kind != ProjectType::StaticContainer {
                    r.succeeded("Project is not a container project"@) && r.payload is None
                } else {
                    &&& r.succeeded("Container requested"@)
                    &&& r.payload matches Some(q)
                    &&& q.image@ == p.private_metadata.image
                    &&& q.env@.len() == 2
                    &&& q.env@[0]@ == spec_url_variable(port)
                    &&& q.env@[1]@ == spec_project_variable(name@)
                    &&& q.extra_hosts@.len() == 1
                    &&& q.extra_hosts@[0]@ == spec_host_gateway()
                },
            },
    {
        let existing = self.get_project_by_id(name.clone());
        let project = match existing.payload {
            Some(p) => p,
            None => {
                return DefaultReturn::fail(Failure::ProjectMissing, None);
            },
        };
        match project.private_metadata.kind {
            ProjectType::StaticPackage => DefaultReturn::ok(
                String::from_str("Project is not a container project"),
                None,
            ),
            ProjectType::StaticContainer => {
                let mut env: Vec<String> = Vec::new();
                env.push(url_variable(port));
                env.push(project_variable(name.as_str()));
                let mut extra_hosts: Vec<String> = Vec::new();
                extra_hosts.push(String::from_str("host.docker.internal:host-gateway"));
                DefaultReturn::ok(
                    String::from_str("Container requested"),
                    Some(ContainerRequest { image: project.private_metadata.image, env, extra_hosts }),
                )
            },
        }
    }

    /// The container that a start or a removal is to work on.
    pub fn container_target(&mut self, name: String) -> (r: DefaultReturn<Option<String>>)
        requires
            old(self).wf(),
        ensures
            final(self).wf(),
            final(self)@ == old(self)@.warmed(name@),
            match spec_container(old(self)@, name@) {
                ContainerVerdict::Refused(reason) => r.failed(reason) && r.payload is None,
                ContainerVerdict::NotBacked => not_backed_answer(r),
                ContainerVerdict::Empty => r.failed(Failure::ContainerMissing)
                    && r.payload is None,
                ContainerVerdict::Holds(cid) => container_answer("Container exists"@, cid, r),
            },
    {
        let existing = self.get_project_by_id(name);
        let project = match existing.payload {
            Some(p) => p,
            None => {
                return DefaultReturn::fail(Failure::ProjectMissing, None);
            },
        };
        match project.private_metadata.kind {
            ProjectType::StaticPackage => DefaultReturn::ok(
                String::from_str("Project is not a container project"),
                None,
            ),
            ProjectType::StaticContainer => match project.private_metadata.cid {
                Some(cid) => DefaultReturn::ok(String::from_str("Container exists"), Some(cid)),
                None => DefaultReturn::fail(Failure::ContainerMissing, None),
            },
        }
    }

    /// Records how the creation of a container ended: `created` is the
    /// identifier the daemon gave, or nothing where it refused. On success
    /// the project holds the container, which is created and not running.
    pub fn create_project_container(&mut self, name: String, created: Option<String>) -> (r:
        DefaultReturn<Option<String>>)
        requires
            old(self).wf(),
        ensures
            final(self).wf(),
            match spec_container(old(self)@, name@) {
                ContainerVerdict::Refused(reason) => r.failed(reason) && r.payload is None
                    && final(self)@ == old(self)@.warmed(name@),
                ContainerVerdict::NotBacked => not_backed_answer(r) && final(self)@
                    == old(self)@.warmed(name@),
                _ => match created {
                    None => r.failed(Failure::ContainerCreateFailed) && r.payload is None
                        && final(self)@ == old(self)@.warmed(name@),
                    Some(cid) => container_answer("Started container"@, cid@, r) && final(self)@
                        == container_post(old(self)@, name@, Some(cid@), ContainerState::Created),
                },
            },
    {
        let ghost s = self@;
        let (i, project) = match self.locate(name.as_str()) {
            Some(found) => found,
            None => {
                return DefaultReturn::fail(Failure::ProjectMissing, None);
            },
        };
        match project.private_metadata.kind {
            ProjectType::StaticPackage => {
                return DefaultReturn::ok(
                    String::from_str("Project is not a container project"),
                    None,
                );
            },
            ProjectType::StaticContainer => {},
        }
        let cid = match created {
            Some(cid) => cid,
            None => {
                return DefaultReturn::fail(Failure::ContainerCreateFailed, None);
            },
        };
        self.record_container(i, project, Some(cid.clone()), ContainerState::Created);
        assert(self@.cache =~= container_post(
            s,
            name@,
            Some(cid@),
            ContainerState::Created,
        ).cache);
        DefaultReturn::ok(String::from_str("Started container"), Some(cid))
    }

    /// Records how the start of a project's container ended. On success the
    /// container is running.
    pub fn start_project_container(&mut self, name: String, started: bool) -> (r: DefaultReturn<
        Option<String>,
    >)
        requires
            old(self).wf(),
        ensures
            final(self).wf(),
            match spec_container(old(self)@, name@) {
                ContainerVerdict::Refused(reason) => r.failed(reason) && r.payload is None
                    && final(self)@ == old(self)@.warmed(name@),
                ContainerVerdict::NotBacked => not_backed_answer(r) && final(self)@
                    == old(self)@.warmed(name@),
                ContainerVerdict::Empty => r.failed(Failure::ContainerMissing)
                    && r.payload is None && final(self)@ == old(self)@.warmed(name@),
                ContainerVerdict::Holds(cid) => if started {
                    container_answer("Started container"@, cid, r) && final(self)@
                        == container_post(old(self)@, name@, Some(cid), ContainerState::Running)
                } else {
                    r.failed(Failure::ContainerStartFailed) && r.payload is None && final(self)@
                        == old(self)@.warmed(name@)
                },
            },
    {
        let ghost s = self@;
        let (i, project) = match self.locate(name.as_str()) {
            Some(found) => found,
            None => {
                return DefaultReturn::fail(Failure::ProjectMissing, None);
            },
        };
        match project.private_metadata.kind {
            ProjectType::StaticPackage => {
                return DefaultReturn::ok(
                    String::from_str("Project is not a container project"),
                    None,
                );
            },
            ProjectType::StaticContainer => {},
        }
        let cid = match clone_text_option(&project.private_metadata.cid) {
            Some(cid) => cid,
            None => {
                return DefaultReturn::fail(Failure::ContainerMissing, None);
            },
        };
        if !started {
            return DefaultReturn::fail(Failure::ContainerStartFailed, None);
        }
        self.record_container(i, project, Some(cid.clone()), ContainerState::Running);
        assert(self@.cache =~= container_post(
            s,
            name@,
            Some(cid@),
            ContainerState::Running,
        ).cache);
        DefaultReturn::ok(String::from_str("Started container"), Some(cid))
    }

    /// Records how the forced removal of a project's container ended. On
    /// success the project holds no container any more.
    pub fn remove_project_container(&mut self, name: String, removed: bool) -> (r: DefaultReturn<
        Option<String>,
    >)
        requires
            old(self).wf(),
        ensures
            final(self).wf(),
            match spec_container(old(self)@, name@) {
                ContainerVerdict::Refused(reason) => r.failed(reason) && r.payload is None
                    && final(self)@ == old(self)@.warmed(name@),
                ContainerVerdict::NotBacked => not_backed_answer(r) && final(self)@
                    == old(self)@.warmed(name@),
                ContainerVerdict::Empty => r.failed(Failure::ContainerMissing)
                    && r.payload is None && final(self)@ == old(self)@.warmed(name@),
                ContainerVerdict::Holds(cid) => if removed {
                    container_answer("Container deleted"@, cid, r) && final(self)@
                        == container_post(old(self)@, name@, None, ContainerState::Removed)
                } else {
                    r.failed(Failure::ContainerRemoveFailed) && r.payload is None && final(self)@
                        == old(self)@.warmed(name@)
                },
            },
    {
        let ghost s = self@;
        let (i, project) = match self.locate(name.as_str()) {
            Some(found) => found,
            None => {
                return DefaultReturn::fail(Failure::ProjectMissing, None);
            },
        };
        match project.private_metadata.kind {
            ProjectType::StaticPackage => {
                return DefaultReturn::ok(
                    String::from_str("Project is not a container project"),
                    None,
                );
            },
            ProjectType::StaticContainer => {},
        }
        let cid = match clone_text_option(&project.private_metadata.cid) {
            Some(cid) => cid,
            None => {
                return DefaultReturn::fail(Failure::ContainerMissing, None);
            },
        };
        if !removed {
            return DefaultReturn::fail(Failure::ContainerRemoveFailed, None);
        }
        self.record_container(i, project, None, ContainerState::Removed);
        assert(self@.cache =~= container_post(s, name@, None, ContainerState::Removed).cache);
        DefaultReturn::ok(String::from_str("Container deleted"), Some(cid))
    }
}

} // verus!
