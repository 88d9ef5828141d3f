//! The registry's data: projects, linked profiles and the manifest that owns
//! them, each with a mathematical model.

use vstd::prelude::*;
use crate::search::{first_where, any_where};

verus! {

/// Identifier persisted as the configured project of a fresh manifest.
pub const DEFAULT_CONFIGURED_PROJECT: &'static str = "amcwb/ctrl";

pub open spec fn opt_str_view(o: Option<String>) -> Option<Seq<char>> {
    match o {
        Some(s) => Some(s@),
        None => None,
    }
}

pub open spec fn strs_view(v: Seq<String>) -> Seq<Seq<char>> {
    v.map_values(|s: String| s@)
}

/// What a project is, apart from its name.
pub struct ProjectModel {
    pub channel: Seq<char>,
    pub repository: Option<Seq<char>>,
    pub owners: Seq<Seq<char>>,
    pub tracker: Option<Seq<char>>,
}

/// The model of a project created in `channel`: no owners, no references.
pub open spec fn fresh_project(channel: Seq<char>) -> ProjectModel {
    ProjectModel { channel, repository: None, owners: Seq::empty(), tracker: None }
}

/// A named unit of work bound to a chat channel.
#[derive(Debug, Clone, PartialEq, Eq)]
pub struct Project {
    pub slack_channel: String,
    pub github_repo: Option<String>,
    pub project_owners: Vec<String>,
    pub jira_project: Option<String>,
}

impl View for Project {
    type V = ProjectModel;

    open spec fn view(&self) -> ProjectModel {
        ProjectModel {
            channel: self.slack_channel@,
            repository: opt_str_view(self.github_repo),
            owners: strs_view(self.project_owners@),
            tracker: opt_str_view(self.jira_project),
        }
    }
}

/// The external-system username linked to a chat identity.
#[derive(Debug, Clone, PartialEq, Eq)]
pub struct Profile {
    pub github_username: String,
}

impl View for Profile {
    type V = Seq<char>;

    open spec fn view(&self) -> Seq<char> {
        self.github_username@
    }
}

/// A project under its unique name.
#[derive(Debug, Clone, PartialEq, Eq)]
pub struct NamedProject {
    pub name: String,
    pub project: Project,
}

/// A profile under the chat identity it belongs to.
#[derive(Debug, Clone, PartialEq, Eq)]
pub struct LinkedProfile {
    pub slack_id: String,
    pub profile: Profile,
}

/// The whole registry, models of projects and profiles in stored order.
pub struct ManifestModel {
    pub projects: Seq<(Seq<char>, ProjectModel)>,
    pub managers: Seq<Seq<char>>,
    pub configured_project: Seq<char>,
    pub profiles: Seq<(Seq<char>, Seq<char>)>,
}

/// The aggregate root: all projects, all profiles, and the global managers.
#[derive(Debug, Clone, PartialEq, Eq)]
pub struct Manifest {
    pub projects: Vec<NamedProject>,
    pub managers: Vec<String>,
    pub configured_project: String,
    pub profiles: Vec<LinkedProfile>,
}

impl View for Manifest {
    type V = ManifestModel;

    open spec fn view(&self) -> ManifestModel {
        ManifestModel {
            projects: self.projects@.map_values(|e: NamedProject| (e.name@, e.project@)),
            managers: strs_view(self.managers@),
            configured_project: self.configured_project@,
            profiles: self.profiles@.map_values(|e: LinkedProfile| (e.slack_id@, e.profile@)),
        }
    }
}

pub open spec fn named(name: Seq<char>) -> spec_fn((Seq<char>, ProjectModel)) -> bool {
    |e: (Seq<char>, ProjectModel)| e.0 == name
}

pub open spec fn in_channel(channel: Seq<char>) -> spec_fn((Seq<char>, ProjectModel)) -> bool {
    |e: (Seq<char>, ProjectModel)| e.1.channel == channel
}

/// An unset reference reads as the empty string.
pub open spec fn or_empty(o: Option<Seq<char>>) -> Seq<char> {
    match o {
        Some(s) => s,
        None => Seq::empty(),
    }
}

pub open spec fn with_repository(repo: Seq<char>) -> spec_fn((Seq<char>, ProjectModel)) -> bool {
    |e: (Seq<char>, ProjectModel)| or_empty(e.1.repository) == repo
}

pub open spec fn with_tracker(key: Seq<char>) -> spec_fn((Seq<char>, ProjectModel)) -> bool {
    |e: (Seq<char>, ProjectModel)| or_empty(e.1.tracker) == key
}

pub open spec fn chat_is(chat: Seq<char>) -> spec_fn((Seq<char>, Seq<char>)) -> bool {
    |e: (Seq<char>, Seq<char>)| e.0 == chat
}

pub open spec fn username_is(user: Seq<char>) -> spec_fn((Seq<char>, Seq<char>)) -> bool {
    |e: (Seq<char>, Seq<char>)| e.1 == user
}

pub open spec fn entry_project(
    ps: Seq<(Seq<char>, ProjectModel)>,
    i: Option<int>,
) -> Option<ProjectModel> {
    match i {
        Some(i) => Some(ps[i].1),
        None => None,
    }
}

pub open spec fn entry_username(
    ps: Seq<(Seq<char>, Seq<char>)>,
    i: Option<int>,
) -> Option<Seq<char>> {
    match i {
        Some(i) => Some(ps[i].1),
        None => None,
    }
}

pub open spec fn entry_chat(ps: Seq<(Seq<char>, Seq<char>)>, i: Option<int>) -> Option<Seq<char>> {
    match i {
        Some(i) => Some(ps[i].0),
        None => None,
    }
}

impl ManifestModel {
    /// Project names are unique, owner lists hold no duplicate, and each chat
    /// identity has at most one profile.
    pub open spec fn wf(self) -> bool {
        &&& forall|i: int, j: int|
            0 <= i < j < self.projects.len() ==> #[trigger] self.projects[i].0
                != #[trigger] self.projects[j].0
        &&& forall|i: int|
            0 <= i < self.projects.len() ==> (#[trigger] self.projects[i]).1.owners.no_duplicates()
        &&& forall|i: int, j: int|
            0 <= i < j < self.profiles.len() ==> #[trigger] self.profiles[i].0
                != #[trigger] self.profiles[j].0
    }

    pub open spec fn has_project(self, name: Seq<char>) -> bool {
        any_where(self.projects, named(name))
    }

    pub open spec fn project_index(self, name: Seq<char>) -> Option<int> {
        first_where(self.projects, named(name))
    }

    /// The project registered under `name`.
    pub open spec fn project(self, name: Seq<char>) -> Option<ProjectModel> {
        entry_project(self.projects, self.project_index(name))
    }

    /// The first project bound to `channel`.
    pub open spec fn project_in_channel(self, channel: Seq<char>) -> Option<ProjectModel> {
        entry_project(self.projects, first_where(self.projects, in_channel(channel)))
    }

    /// The first project whose repository, read as empty when unset, is `repo`.
    pub open spec fn project_with_repository(self, repo: Seq<char>) -> Option<ProjectModel> {
        entry_project(self.projects, first_where(self.projects, with_repository(repo)))
    }

    /// The first project whose tracker key, read as empty when unset, is `key`.
    pub open spec fn project_with_tracker(self, key: Seq<char>) -> Option<ProjectModel> {
        entry_project(self.projects, first_where(self.projects, with_tracker(key)))
    }

    /// The external username linked to chat identity `chat`.
    pub open spec fn linked(self, chat: Seq<char>) -> Option<Seq<char>> {
        entry_username(self.profiles, first_where(self.profiles, chat_is(chat)))
    }

    /// The first chat identity linked to external username `user`.
    pub open spec fn chat_of(self, user: Seq<char>) -> Option<Seq<char>> {
        entry_chat(self.profiles, first_where(self.profiles, username_is(user)))
    }

    /// This manifest with a fresh project `name` in `channel` appended.
    pub open spec fn with_project(self, name: Seq<char>, channel: Seq<char>) -> ManifestModel {
        ManifestModel { projects: self.projects.push((name, fresh_project(channel))), ..self }
    }

    /// This manifest without the project at position `i`.
    pub open spec fn without_project_at(self, i: int) -> ManifestModel {
        ManifestModel { projects: self.projects.remove(i), ..self }
    }

    /// This manifest with the project at position `i` replaced by `p`, its name kept.
    pub open spec fn with_project_at(self, i: int, p: ProjectModel) -> ManifestModel {
        ManifestModel { projects: self.projects.update(i, (self.projects[i].0, p)), ..self }
    }

    /// This manifest with chat identity `chat` linked to `user`, replacing any
    /// earlier link of `chat` in place.
    pub open spec fn with_link(self, chat: Seq<char>, user: Seq<char>) -> ManifestModel {
        ManifestModel {
            profiles: match first_where(self.profiles, chat_is(chat)) {
                Some(i) => self.profiles.update(i, (chat, user)),
                None => self.profiles.push((chat, user)),
            },
            ..self
        }
    }

    /// Whether some profile links external username `user`.
    pub open spec fn is_linked_username(self, user: Seq<char>) -> bool {
        any_where(self.profiles, username_is(user))
    }
}

/// The manifest of a first run: nothing registered, nothing linked.
pub open spec fn empty_manifest(configured_project: Seq<char>) -> ManifestModel {
    ManifestModel {
        projects: Seq::empty(),
        managers: Seq::empty(),
        configured_project,
        profiles: Seq::empty(),
    }
}

impl Manifest {
    pub open spec fn wf(&self) -> bool {
        self@.wf()
    }

    /// An empty manifest pointing at the default configured project.
    pub fn empty() -> (r: Manifest)
        ensures
            r@ == empty_manifest(DEFAULT_CONFIGURED_PROJECT@),
            r.wf(),
    {
        let r = Manifest {
            projects: Vec::new(),
            managers: Vec::new(),
            configured_project: DEFAULT_CONFIGURED_PROJECT.to_owned(),
            profiles: Vec::new(),
        };
        assert(r@.projects =~= Seq::empty());
        assert(r@.managers =~= Seq::empty());
        assert(r@.profiles =~= Seq::empty());
        r
    }
}

impl Default for Manifest {
    fn default() -> (r: Manifest)
        ensures
            r@ == empty_manifest(DEFAULT_CONFIGURED_PROJECT@),
            r.wf(),
    {
        Manifest::empty()
    }
}

} // verus!
