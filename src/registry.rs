//! Lookups over a manifest and the mutations that keep it well formed.

use vstd::prelude::*;
use crate::search::{first_where, lemma_first_where_at, lemma_first_where_none, lemma_first_where_some, lemma_any_iff_first};
use crate::manifest::{
    Manifest, ManifestModel, NamedProject, LinkedProfile, Project, Profile, ProjectModel, fresh_project, named, strs_view, in_channel, with_repository,
    with_tracker, chat_is, username_is, or_empty, opt_str_view,
};

verus! {

pub open spec fn opt_project_view(r: Option<&Project>) -> Option<ProjectModel> {
    match r {
        Some(p) => Some(p@),
        None => None,
    }
}

pub open spec fn opt_profile_view(r: Option<&Profile>) -> Option<Seq<char>> {
    match r {
        Some(p) => Some(p@),
        None => None,
    }
}

pub open spec fn opt_index_view(r: Option<usize>) -> Option<int> {
    match r {
        Some(i) => Some(i as int),
        None => None,
    }
}

/// Whether an optional reference, read as empty when unset, equals `key`.
fn reference_is(o: &Option<String>, key: &String) -> (r: bool)
    ensures
        r == (or_empty(opt_str_view(*o)) == key@),
{
    match o {
        Some(s) => *s == *key,
        None => {
            let empty = String::new();
            *key == empty
        },
    }
}

/// Position of the project registered under `name`.
pub fn find_project(manifest: &Manifest, name: &String) -> (r: Option<usize>)
    ensures
        opt_index_view(r) == manifest@.project_index(name@),
        r matches Some(i) ==> i < manifest.projects.len(),
{
    let mut i: usize = 0;
    while i < manifest.projects.len()
        invariant
            0 <= i <= manifest.projects.len(),
            forall|j: int| 0 <= j < i ==> !named(name@)(#[trigger] manifest@.projects[j]),
        decreases manifest.projects.len() - i,
    {
        if manifest.projects[i].name == *name {
            proof {
                lemma_first_where_at(manifest@.projects, named(name@), i as int);
            }
            return Some(i);
        }
        i += 1;
    }
    proof {
        lemma_first_where_none(manifest@.projects, named(name@));
    }
    None
}

/// Position of the profile of chat identity `chat`.
pub fn find_profile(manifest: &Manifest, chat: &String) -> (r: Option<usize>)
    ensures
        opt_index_view(r) == first_where(manifest@.profiles, chat_is(chat@)),
        r matches Some(i) ==> i < manifest.profiles.len(),
{
    let mut i: usize = 0;
    while i < manifest.profiles.len()
        invariant
            0 <= i <= manifest.profiles.len(),
            forall|j: int| 0 <= j < i ==> !chat_is(chat@)(#[trigger] manifest@.profiles[j]),
        decreases manifest.profiles.len() - i,
    {
        if manifest.profiles[i].slack_id == *chat {
            proof {
                lemma_first_where_at(manifest@.profiles, chat_is(chat@), i as int);
            }
            return Some(i);
        }
        i += 1;
    }
    proof {
        lemma_first_where_none(manifest@.profiles, chat_is(chat@));
    }
    None
}

/// Position of the first profile linked to external username `user`.
pub fn find_profile_by_username(manifest: &Manifest, user: &String) -> (r: Option<usize>)
    ensures
        opt_index_view(r) == first_where(manifest@.profiles, username_is(user@)),
        r matches Some(i) ==> i < manifest.profiles.len(),
{
    let mut i: usize = 0;
    while i < manifest.profiles.len()
        invariant
            0 <= i <= manifest.profiles.len(),
            forall|j: int| 0 <= j < i ==> !username_is(user@)(#[trigger] manifest@.profiles[j]),
        decreases manifest.profiles.len() - i,
    {
        if manifest.profiles[i].profile.github_username == *user {
            proof {
                lemma_first_where_at(manifest@.profiles, username_is(user@), i as int);
            }
            return Some(i);
        }
        i += 1;
    }
    proof {
        lemma_first_where_none(manifest@.profiles, username_is(user@));
    }
    None
}

/// The profile linked to chat identity `slack_id`.
pub fn get_user_by_slack_id<'a>(manifest: &'a Manifest, slack_id: &str) -> (r: Option<&'a Profile>)
    ensures
        opt_profile_view(r) == manifest@.linked(slack_id@),
{
    let key = slack_id.to_owned();
    match find_profile(manifest, &key) {
        Some(i) => Some(&manifest.profiles[i].profile),
        None => None,
    }
}

/// The first profile linked to external username `github_username`.
pub fn get_user_by_github_username<'a>(manifest: &'a Manifest, github_username: &str) -> (r: Option<
    &'a Profile,
>)
    ensures
        opt_profile_view(r) == (if manifest@.is_linked_username(github_username@) {
            Some(github_username@)
        } else {
            None::<Seq<char>>
        }),
{
    let key = github_username.to_owned();
    match find_profile_by_username(manifest, &key) {
        Some(i) => {
            proof {
                assert(manifest@.profiles[i as int].1 == manifest.profiles@[i as int].profile@);
                assert(username_is(key@)(manifest@.profiles[i as int]));
            }
            Some(&manifest.profiles[i].profile)
        },
        None => {
            proof {
                if manifest@.is_linked_username(key@) {
                    let j = choose|j: int|
                        0 <= j < manifest@.profiles.len() && #[trigger] username_is(key@)(
                            manifest@.profiles[j],
                        );
                    lemma_first_where_some(manifest@.profiles, username_is(key@), j);
                }
            }
            None
        },
    }
}

/// The chat identity first linked to external username `github_username`.
pub fn get_slack_by_github_username(manifest: &Manifest, github_username: &str) -> (r: Option<
    String,
>)
    ensures
        opt_str_view(r) == manifest@.chat_of(github_username@),
{
    let key = github_username.to_owned();
    match find_profile_by_username(manifest, &key) {
        Some(i) => Some(manifest.profiles[i].slack_id.clone()),
        None => None,
    }
}

/// The project registered under `project_name`.
pub fn get_project_by_name<'a>(manifest: &'a Manifest, project_name: &str) -> (r: Option<
    &'a Project,
>)
    ensures
        opt_project_view(r) == manifest@.project(project_name@),
{
    let key = project_name.to_owned();
    match find_project(manifest, &key) {
        Some(i) => Some(&manifest.projects[i].project),
        None => None,
    }
}

/// The first project bound to channel `slack_channel`.
pub fn get_project_by_slack_channel<'a>(manifest: &'a Manifest, slack_channel: &str) -> (r: Option<
    &'a Project,
>)
    ensures
        opt_project_view(r) == manifest@.project_in_channel(slack_channel@),
{
    let key = slack_channel.to_owned();
    let mut i: usize = 0;
    while i < manifest.projects.len()
        invariant
            0 <= i <= manifest.projects.len(),
            key@ == slack_channel@,
            forall|j: int| 0 <= j < i ==> !in_channel(key@)(#[trigger] manifest@.projects[j]),
        decreases manifest.projects.len() - i,
    {
        if manifest.projects[i].project.slack_channel == key {
            proof {
                lemma_first_where_at(manifest@.projects, in_channel(key@), i as int);
                assert(manifest@.projects[i as int].1 == manifest.projects@[i as int].project@);
            }
            return Some(&manifest.projects[i].project);
        }
        i += 1;
    }
    proof {
        lemma_first_where_none(manifest@.projects, in_channel(key@));
    }
    None
}

/// The first project whose repository, an unset one read as empty, is `github_repo`.
pub fn get_project_by_github_repo<'a>(manifest: &'a Manifest, github_repo: &str) -> (r: Option<
    &'a Project,
>)
    ensures
        opt_project_view(r) == manifest@.project_with_repository(github_repo@),
{
    let key = github_repo.to_owned();
    let mut i: usize = 0;
    while i < manifest.projects.len()
        invariant
            0 <= i <= manifest.projects.len(),
            key@ == github_repo@,
            forall|j: int| 0 <= j < i ==> !with_repository(key@)(#[trigger] manifest@.projects[j]),
        decreases manifest.projects.len() - i,
    {
        if reference_is(&manifest.projects[i].project.github_repo, &key) {
            proof {
                lemma_first_where_at(manifest@.projects, with_repository(key@), i as int);
                assert(manifest@.projects[i as int].1 == manifest.projects@[i as int].project@);
            }
            return Some(&manifest.projects[i].project);
        }
        i += 1;
    }
    proof {
        lemma_first_where_none(manifest@.projects, with_repository(key@));
    }
    None
}

/// The first project whose tracker key, an unset one read as empty, is `jira_project`.
pub fn get_project_by_jira_project<'a>(manifest: &'a Manifest, jira_project: &str) -> (r: Option<
    &'a Project,
>)
    ensures
        opt_project_view(r) == manifest@.project_with_tracker(jira_project@),
{
    let key = jira_project.to_owned();
    let mut i: usize = 0;
    while i < manifest.projects.len()
        invariant
            0 <= i <= manifest.projects.len(),
            key@ == jira_project@,
            forall|j: int| 0 <= j < i ==> !with_tracker(key@)(#[trigger] manifest@.projects[j]),
        decreases manifest.projects.len() - i,
    {
        if reference_is(&manifest.projects[i].project.jira_project, &key) {
            proof {
                lemma_first_where_at(manifest@.projects, with_tracker(key@), i as int);
                assert(manifest@.projects[i as int].1 == manifest.projects@[i as int].project@);
            }
            return Some(&manifest.projects[i].project);
        }
        i += 1;
    }
    proof {
        lemma_first_where_none(manifest@.projects, with_tracker(key@));
    }
    None
}

} // verus!

verus! {

/// Why a registry mutation was refused.
#[derive(PartialEq, Eq, Structural, Debug, Clone, Copy)]
pub enum RegistryError {
    NotFound,
    AlreadyExists,
    Unlinked,
    AlreadyOwner,
    NotOwner,
}

pub open spec fn equals(v: Seq<char>) -> spec_fn(Seq<char>) -> bool {
    |x: Seq<char>| x == v
}

/// `s` with its first occurrence of `v` taken out.
pub open spec fn remove_value(s: Seq<Seq<char>>, v: Seq<char>) -> Seq<Seq<char>> {
    match first_where(s, equals(v)) {
        Some(i) => s.remove(i),
        None => s,
    }
}

/// What creating project `name` in `channel` returns, and the manifest after.
pub open spec fn create_spec(m: ManifestModel, name: Seq<char>, channel: Seq<char>) -> (
    Result<(), RegistryError>,
    ManifestModel,
) {
    if m.has_project(name) {
        (Err(RegistryError::AlreadyExists), m)
    } else {
        (Ok(()), m.with_project(name, channel))
    }
}

/// What deleting project `name` returns, and the manifest after.
pub open spec fn delete_spec(m: ManifestModel, name: Seq<char>) -> (
    Result<(), RegistryError>,
    ManifestModel,
) {
    match m.project_index(name) {
        Some(i) => (Ok(()), m.without_project_at(i)),
        None => (Err(RegistryError::NotFound), m),
    }
}

/// What adding the user linked to `chat` as an owner of `name` returns, and
/// the manifest after.
pub open spec fn add_owner_spec(m: ManifestModel, name: Seq<char>, chat: Seq<char>) -> (
    Result<(), RegistryError>,
    ManifestModel,
) {
    match m.project_index(name) {
        None => (Err(RegistryError::NotFound), m),
        Some(i) => match m.linked(chat) {
            None => (Err(RegistryError::Unlinked), m),
            Some(u) => {
                let p = m.projects[i].1;
                if p.owners.contains(u) {
                    (Err(RegistryError::AlreadyOwner), m)
                } else {
                    (Ok(()), m.with_project_at(i, ProjectModel { owners: p.owners.push(u), ..p }))
                }
            },
        },
    }
}

/// What removing the user linked to `chat` from the owners of `name`
/// returns, and the manifest after.
pub open spec fn remove_owner_spec(m: ManifestModel, name: Seq<char>, chat: Seq<char>) -> (
    Result<(), RegistryError>,
    ManifestModel,
) {
    match m.project_index(name) {
        None => (Err(RegistryError::NotFound), m),
        Some(i) => match m.linked(chat) {
            None => (Err(RegistryError::Unlinked), m),
            Some(u) => {
                let p = m.projects[i].1;
                if !p.owners.contains(u) {
                    (Err(RegistryError::NotOwner), m)
                } else {
                    (
                        Ok(()),
                        m.with_project_at(
                            i,
                            ProjectModel { owners: remove_value(p.owners, u), ..p },
                        ),
                    )
                }
            },
        },
    }
}

/// What setting the repository of `name` to `repo` returns, and the manifest after.
pub open spec fn set_repository_spec(m: ManifestModel, name: Seq<char>, repo: Seq<char>) -> (
    Result<(), RegistryError>,
    ManifestModel,
) {
    match m.project_index(name) {
        None => (Err(RegistryError::NotFound), m),
        Some(i) => {
            let p = m.projects[i].1;
            (Ok(()), m.with_project_at(i, ProjectModel { repository: Some(repo), ..p }))
        },
    }
}

/// Registers project `name` bound to `channel`, with no owners and no
/// references; refused when the name is taken.
pub fn create_project(manifest: &mut Manifest, name: &str, channel: &str) -> (r: Result<
    (),
    RegistryError,
>)
    requires
        old(manifest).wf(),
    ensures
        final(manifest).wf(),
        (r, final(manifest)@) == create_spec(old(manifest)@, name@, channel@),
{
    let key = name.to_owned();
    match find_project(manifest, &key) {
        Some(i) => {
            proof {
                assert(named(key@)(manifest@.projects[i as int]));
            }
            Err(RegistryError::AlreadyExists)
        },
        None => {
            proof {
                if manifest@.has_project(key@) {
                    let j = choose|j: int|
                        0 <= j < manifest@.projects.len() && #[trigger] named(key@)(
                            manifest@.projects[j],
                        );
                    lemma_first_where_some(manifest@.projects, named(key@), j);
                }
            }
            let ghost before = manifest@;
            let project = Project {
                slack_channel: channel.to_owned(),
                github_repo: None,
                project_owners: Vec::new(),
                jira_project: None,
            };
            proof {
                assert(project@.owners =~= Seq::<Seq<char>>::empty());
            }
            manifest.projects.push(NamedProject { name: key, project });
            proof {
                assert(manifest@.projects =~= before.projects.push((name@, fresh_project(channel@))));
                assert(manifest@ =~= before.with_project(name@, channel@));
            }
            Ok(())
        },
    }
}

} // verus!

verus! {

/// Position of the first entry of `names` equal to `x`.
fn position_of(names: &Vec<String>, x: &String) -> (r: Option<usize>)
    ensures
        opt_index_view(r) == first_where(strs_view(names@), equals(x@)),
        r matches Some(i) ==> i < names.len(),
        r is Some <==> strs_view(names@).contains(x@),
{
    let mut i: usize = 0;
    while i < names.len()
        invariant
            0 <= i <= names.len(),
            forall|j: int| 0 <= j < i ==> !equals(x@)(#[trigger] strs_view(names@)[j]),
        decreases names.len() - i,
    {
        if names[i] == *x {
            proof {
                lemma_first_where_at(strs_view(names@), equals(x@), i as int);
                assert(strs_view(names@)[i as int] == x@);
            }
            return Some(i);
        }
        i += 1;
    }
    proof {
        lemma_first_where_none(strs_view(names@), equals(x@));
        if strs_view(names@).contains(x@) {
            let j = choose|j: int| 0 <= j < strs_view(names@).len() && strs_view(names@)[j] == x@;
            assert(equals(x@)(strs_view(names@)[j]));
        }
    }
    None
}

/// The external username linked to chat identity `chat`, as a new string.
fn linked_username(manifest: &Manifest, chat: &String) -> (r: Option<String>)
    ensures
        opt_str_view(r) == manifest@.linked(chat@),
{
    match find_profile(manifest, chat) {
        Some(k) => Some(manifest.profiles[k].profile.github_username.clone()),
        None => None,
    }
}

/// Taking a project out keeps the manifest well formed.
proof fn lemma_wf_after_remove(before: ManifestModel, i: int)
    requires
        before.wf(),
        0 <= i < before.projects.len(),
    ensures
        before.without_project_at(i).wf(),
{
    let after = before.without_project_at(i);
    assert forall|a: int, b: int|
        0 <= a < b < after.projects.len() implies #[trigger] after.projects[a].0
        != #[trigger] after.projects[b].0 by {
        let a0 = if a < i { a } else { a + 1 };
        let b0 = if b < i { b } else { b + 1 };
        assert(after.projects[a] == before.projects[a0]);
        assert(after.projects[b] == before.projects[b0]);
    }
    assert forall|a: int| 0 <= a < after.projects.len() implies (
    #[trigger] after.projects[a]).1.owners.no_duplicates() by {
        let a0 = if a < i { a } else { a + 1 };
        assert(after.projects[a] == before.projects[a0]);
    }
}

/// Replacing a project in place, its name kept, by one whose owners hold no
/// duplicate keeps the manifest well formed.
proof fn lemma_wf_after_replace(before: ManifestModel, i: int, q: ProjectModel)
    requires
        before.wf(),
        0 <= i < before.projects.len(),
        q.owners.no_duplicates(),
    ensures
        before.with_project_at(i, q).wf(),
{
    let after = before.with_project_at(i, q);
    assert forall|a: int, b: int|
        0 <= a < b < after.projects.len() implies #[trigger] after.projects[a].0
        != #[trigger] after.projects[b].0 by {
        assert(after.projects[a].0 == before.projects[a].0);
        assert(after.projects[b].0 == before.projects[b].0);
    }
    assert forall|a: int| 0 <= a < after.projects.len() implies (
    #[trigger] after.projects[a]).1.owners.no_duplicates() by {
        if a != i {
            assert(after.projects[a] == before.projects[a]);
        }
    }
}

/// Removes project `name`; refused when there is none.
pub fn delete_project(manifest: &mut Manifest, name: &str) -> (r: Result<(), RegistryError>)
    requires
        old(manifest).wf(),
    ensures
        final(manifest).wf(),
        (r, final(manifest)@) == delete_spec(old(manifest)@, name@),
{
    let key = name.to_owned();
    match find_project(manifest, &key) {
        None => Err(RegistryError::NotFound),
        Some(i) => {
            let ghost before = manifest@;
            let _gone = manifest.projects.remove(i);
            proof {
                assert(manifest@.projects =~= before.projects.remove(i as int));
                assert(manifest@ =~= before.without_project_at(i as int));
                lemma_wf_after_remove(before, i as int);
            }
            Ok(())
        },
    }
}

/// Makes the user linked to chat identity `target` an owner of `name`.
pub fn add_owner(manifest: &mut Manifest, name: &str, target: &str) -> (r: Result<(), RegistryError>)
    requires
        old(manifest).wf(),
    ensures
        final(manifest).wf(),
        (r, final(manifest)@) == add_owner_spec(old(manifest)@, name@, target@),
{
    let key = name.to_owned();
    let chat = target.to_owned();
    let i = match find_project(manifest, &key) {
        None => return Err(RegistryError::NotFound),
        Some(i) => i,
    };
    let user = match linked_username(manifest, &chat) {
        None => return Err(RegistryError::Unlinked),
        Some(u) => u,
    };
    if position_of(&manifest.projects[i].project.project_owners, &user).is_some() {
        return Err(RegistryError::AlreadyOwner);
    }
    let ghost before = manifest@;
    let ghost p = before.projects[i as int].1;
    let mut entry = manifest.projects.remove(i);
    entry.project.project_owners.push(user);
    manifest.projects.insert(i, entry);
    proof {
        let q = ProjectModel { owners: p.owners.push(user@), ..p };
        assert(manifest.projects@[i as int].project@.owners =~= q.owners);
        assert(manifest@.projects =~= before.projects.update(i as int, (key@, q)));
        assert(manifest@ =~= before.with_project_at(i as int, q));
        assert(p.owners.no_duplicates());
        assert forall|x: int, y: int|
            0 <= x < y < q.owners.len() implies q.owners[x] != q.owners[y] by {
            if y == p.owners.len() {
                assert(p.owners.contains(p.owners[x]));
            }
        }
        lemma_wf_after_replace(before, i as int, q);
    }
    Ok(())
}

/// Takes the user linked to chat identity `target` off the owners of `name`.
pub fn remove_owner(manifest: &mut Manifest, name: &str, target: &str) -> (r: Result<
    (),
    RegistryError,
>)
    requires
        old(manifest).wf(),
    ensures
        final(manifest).wf(),
        (r, final(manifest)@) == remove_owner_spec(old(manifest)@, name@, target@),
{
    let key = name.to_owned();
    let chat = target.to_owned();
    let i = match find_project(manifest, &key) {
        None => return Err(RegistryError::NotFound),
        Some(i) => i,
    };
    let user = match linked_username(manifest, &chat) {
        None => return Err(RegistryError::Unlinked),
        Some(u) => u,
    };
    let k = match position_of(&manifest.projects[i].project.project_owners, &user) {
        None => return Err(RegistryError::NotOwner),
        Some(k) => k,
    };
    let ghost before = manifest@;
    let ghost p = before.projects[i as int].1;
    let mut entry = manifest.projects.remove(i);
    let _gone = entry.project.project_owners.remove(k);
    manifest.projects.insert(i, entry);
    proof {
        let q = ProjectModel { owners: remove_value(p.owners, user@), ..p };
        assert(manifest.projects@[i as int].project@.owners =~= q.owners);
        assert(manifest@.projects =~= before.projects.update(i as int, (key@, q)));
        assert(manifest@ =~= before.with_project_at(i as int, q));
        assert(p.owners.no_duplicates());
        assert forall|x: int, y: int|
            0 <= x < y < q.owners.len() implies q.owners[x] != q.owners[y] by {
            let x0 = if x < k { x } else { x + 1 };
            let y0 = if y < k { y } else { y + 1 };
            assert(q.owners[x] == p.owners[x0]);
            assert(q.owners[y] == p.owners[y0]);
        }
        lemma_wf_after_replace(before, i as int, q);
    }
    Ok(())
}

/// Points project `name` at repository `repo`, replacing any earlier one.
pub fn set_repository(manifest: &mut Manifest, name: &str, repo: &str) -> (r: Result<
    (),
    RegistryError,
>)
    requires
        old(manifest).wf(),
    ensures
        final(manifest).wf(),
        (r, final(manifest)@) == set_repository_spec(old(manifest)@, name@, repo@),
{
    let key = name.to_owned();
    let i = match find_project(manifest, &key) {
        None => return Err(RegistryError::NotFound),
        Some(i) => i,
    };
    let ghost before = manifest@;
    let ghost p = before.projects[i as int].1;
    let mut entry = manifest.projects.remove(i);
    entry.project.github_repo = Some(repo.to_owned());
    manifest.projects.insert(i, entry);
    proof {
        let q = ProjectModel { repository: Some(repo@), ..p };
        assert(manifest.projects@[i as int].project@ == q);
        assert(manifest@.projects =~= before.projects.update(i as int, (key@, q)));
        assert(manifest@ =~= before.with_project_at(i as int, q));
        assert(p.owners.no_duplicates());
        lemma_wf_after_replace(before, i as int, q);
    }
    Ok(())
}

/// Links chat identity `slack_id` to external username `github_username`,
/// overwriting any earlier link of that identity.
pub fn set_user_github_username(manifest: &mut Manifest, slack_id: &str, github_username: &str)
    requires
        old(manifest).wf(),
    ensures
        final(manifest).wf(),
        final(manifest)@ == old(manifest)@.with_link(slack_id@, github_username@),
{
    let chat = slack_id.to_owned();
    let ghost before = manifest@;
    let found = find_profile(manifest, &chat);
    let entry = LinkedProfile {
        slack_id: chat,
        profile: Profile { github_username: github_username.to_owned() },
    };
    match found {
        Some(k) => {
            let _old_link = manifest.profiles.remove(k);
            manifest.profiles.insert(k, entry);
            proof {
                assert(manifest@.profiles =~= before.profiles.update(
                    k as int,
                    (slack_id@, github_username@),
                ));
                assert(manifest@ =~= before.with_link(slack_id@, github_username@));
                assert forall|a: int, b: int|
                    0 <= a < b < manifest@.profiles.len() implies #[trigger] manifest@.profiles[a].0
                    != #[trigger] manifest@.profiles[b].0 by {
                    assert(manifest@.profiles[a].0 == before.profiles[a].0);
                    assert(manifest@.profiles[b].0 == before.profiles[b].0);
                }
            }
        },
        None => {
            manifest.profiles.push(entry);
            proof {
                lemma_any_iff_first(before.profiles, chat_is(slack_id@));
                assert(manifest@.profiles =~= before.profiles.push((slack_id@, github_username@)));
                assert(manifest@ =~= before.with_link(slack_id@, github_username@));
                assert forall|a: int, b: int|
                    0 <= a < b < manifest@.profiles.len() implies #[trigger] manifest@.profiles[a].0
                    != #[trigger] manifest@.profiles[b].0 by {
                    if b == before.profiles.len() {
                        if before.profiles[a].0 == slack_id@ {
                            assert(chat_is(slack_id@)(before.profiles[a]));
                        }
                    }
                }
            }
        },
    }
}

} // verus!

verus! {

/// An owner as shown to chat users: the chat identity linked to the
/// owner's external username, and that username.
#[derive(Debug, Clone, PartialEq, Eq)]
pub struct OwnerContact {
    pub slack_id: String,
    pub github_username: String,
}

pub open spec fn contacts_view(cs: Seq<OwnerContact>) -> Seq<(Seq<char>, Seq<char>)> {
    cs.map_values(|c: OwnerContact| (c.slack_id@, c.github_username@))
}

/// The owners among `owners` that some profile links, in order, each with the
/// chat identity first linked to it.
pub open spec fn contacts_spec(m: ManifestModel, owners: Seq<Seq<char>>) -> Seq<
    (Seq<char>, Seq<char>),
>
    decreases owners.len(),
{
    if owners.len() == 0 {
        Seq::empty()
    } else {
        let rest = contacts_spec(m, owners.drop_last());
        match m.chat_of(owners.last()) {
            Some(c) => rest.push((c, owners.last())),
            None => rest,
        }
    }
}

/// The linked owners among `owners`, with their chat identities; owners that
/// no profile links are left out.
pub fn owner_contacts(manifest: &Manifest, owners: &Vec<String>) -> (r: Vec<OwnerContact>)
    ensures
        contacts_view(r@) == contacts_spec(manifest@, strs_view(owners@)),
{
    let ghost os = strs_view(owners@);
    let mut r: Vec<OwnerContact> = Vec::new();
    let mut i: usize = 0;
    while i < owners.len()
        invariant
            0 <= i <= owners.len(),
            os == strs_view(owners@),
            contacts_view(r@) == contacts_spec(manifest@, os.take(i as int)),
        decreases owners.len() - i,
    {
        let found = find_profile_by_username(manifest, &owners[i]);
        proof {
            assert(os.take(i as int + 1).drop_last() =~= os.take(i as int));
            assert(os.take(i as int + 1).last() == owners@[i as int]@);
        }
        match found {
            Some(k) => {
                let ghost before = r@;
                r.push(
                    OwnerContact {
                        slack_id: manifest.profiles[k].slack_id.clone(),
                        github_username: owners[i].clone(),
                    },
                );
                proof {
                    assert(contacts_view(r@) =~= contacts_view(before).push(
                        (manifest@.profiles[k as int].0, owners@[i as int]@),
                    ));
                }
            },
            None => {},
        }
        i += 1;
    }
    proof {
        assert(os.take(owners.len() as int) =~= os);
    }
    r
}

} // verus!
