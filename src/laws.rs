//! Laws of the registry that relate several operations.

use vstd::prelude::*;
use crate::search::{first_where, is_first_where, lemma_first_where_at, lemma_any_iff_first};
use crate::command::{
    CommandModel, Outcome, execute_spec, parse_spec, whitespace_tokens, is_word,
    lemma_tokens_two_words, lemma_tokens_three_words,
};
use crate::manifest::{ManifestModel, ProjectModel, fresh_project, named, chat_is};
use crate::registry::{
    RegistryError, create_spec, delete_spec, add_owner_spec, remove_owner_spec, equals,
    remove_value,
};

verus! {

/// Replacing a project in place keeps every name where it was, so lookups by
/// name find the same position.
proof fn lemma_index_after_replace(m: ManifestModel, i: int, p: ProjectModel, name: Seq<char>)
    requires
        m.project_index(name) == Some(i),
    ensures
        m.with_project_at(i, p).project_index(name) == Some(i),
        m.with_project_at(i, p).projects[i] == (name, p),
{
    lemma_any_iff_first(m.projects, named(name));
    let after = m.with_project_at(i, p).projects;
    assert forall|j: int| 0 <= j < i implies !named(name)(#[trigger] after[j]) by {
        assert(!named(name)(m.projects[j]));
    }
    assert(is_first_where(after, named(name), i));
    lemma_first_where_at(after, named(name), i);
}

/// Creating a project under a free name succeeds, and looking the name up
/// afterwards finds a project in the given channel with no owners, no
/// repository and no tracker key.
pub proof fn lemma_create_then_lookup(m: ManifestModel, name: Seq<char>, channel: Seq<char>)
    requires
        !m.has_project(name),
    ensures
        create_spec(m, name, channel).0 is Ok,
        create_spec(m, name, channel).1.project(name) == Some(fresh_project(channel)),
{
    lemma_any_iff_first(m.projects, named(name));
    let after = create_spec(m, name, channel).1.projects;
    let n = m.projects.len() as int;
    assert forall|j: int| 0 <= j < n implies !named(name)(#[trigger] after[j]) by {
        assert(after[j] == m.projects[j]);
        if named(name)(m.projects[j]) {
            assert(m.has_project(name));
        }
    }
    assert(is_first_where(after, named(name), n));
    lemma_first_where_at(after, named(name), n);
}

/// Creating the same name twice: the second call is refused as existing and
/// leaves the manifest as the first call left it.
pub proof fn lemma_create_twice(
    m: ManifestModel,
    name: Seq<char>,
    channel: Seq<char>,
    second_channel: Seq<char>,
)
    ensures
        ({
            let (_, once) = create_spec(m, name, channel);
            create_spec(once, name, second_channel) == (
                Err::<(), RegistryError>(RegistryError::AlreadyExists),
                once,
            )
        }),
{
    let (_, once) = create_spec(m, name, channel);
    if !m.has_project(name) {
        lemma_create_then_lookup(m, name, channel);
        lemma_any_iff_first(once.projects, named(name));
    }
}

/// Deleting a name that is not registered is refused as not found and
/// changes nothing.
pub proof fn lemma_delete_missing(m: ManifestModel, name: Seq<char>)
    requires
        !m.has_project(name),
    ensures
        delete_spec(m, name) == (Err::<(), RegistryError>(RegistryError::NotFound), m),
{
    lemma_any_iff_first(m.projects, named(name));
}

/// Adding the same linked user as an owner twice: the second call is refused
/// as already an owner, and the owner list holds the user exactly once.
pub proof fn lemma_add_owner_twice(m: ManifestModel, name: Seq<char>, chat: Seq<char>)
    requires
        m.wf(),
        m.has_project(name),
        m.linked(chat) is Some,
    ensures
        ({
            let (_, once) = add_owner_spec(m, name, chat);
            let (r, twice) = add_owner_spec(once, name, chat);
            let u = m.linked(chat)->0;
            &&& r == Err::<(), RegistryError>(RegistryError::AlreadyOwner)
            &&& twice == once
            &&& once.project(name) matches Some(p) && exists|k: int|
                0 <= k < p.owners.len() && p.owners[k] == u && forall|j: int|
                    0 <= j < p.owners.len() && #[trigger] p.owners[j] == u ==> j == k
        }),
{
    lemma_any_iff_first(m.projects, named(name));
    let i = m.project_index(name)->0;
    let u = m.linked(chat)->0;
    let p = m.projects[i].1;
    let (_, once) = add_owner_spec(m, name, chat);
    assert(p.owners.no_duplicates());
    if !p.owners.contains(u) {
        let q = ProjectModel { owners: p.owners.push(u), ..p };
        lemma_index_after_replace(m, i, q, name);
        assert(once.profiles == m.profiles);
        let k = p.owners.len() as int;
        assert(q.owners[k] == u);
        assert forall|j: int| 0 <= j < q.owners.len() && #[trigger] q.owners[j] == u implies j
            == k by {
            if j < k {
                assert(p.owners[j] == u);
                assert(p.owners.contains(u));
            }
        }
        assert(q.owners.contains(u));
    } else {
        let k = choose|k: int| 0 <= k < p.owners.len() && p.owners[k] == u;
        assert forall|j: int| 0 <= j < p.owners.len() && #[trigger] p.owners[j] == u implies j
            == k by {
        }
    }
}

/// Adding a linked user who is not yet an owner and then removing the same
/// user gives back the manifest as it was: the owner list no longer holds
/// the user and nothing else changed.
pub proof fn lemma_add_then_remove_owner(m: ManifestModel, name: Seq<char>, chat: Seq<char>)
    requires
        m.wf(),
        m.has_project(name),
        m.linked(chat) is Some,
        !m.project(name)->0.owners.contains(m.linked(chat)->0),
    ensures
        ({
            let (r1, once) = add_owner_spec(m, name, chat);
            let (r2, back) = remove_owner_spec(once, name, chat);
            &&& r1 is Ok
            &&& r2 is Ok
            &&& back == m
            &&& !back.project(name)->0.owners.contains(m.linked(chat)->0)
        }),
{
    lemma_any_iff_first(m.projects, named(name));
    let i = m.project_index(name)->0;
    let u = m.linked(chat)->0;
    let p = m.projects[i].1;
    let q = ProjectModel { owners: p.owners.push(u), ..p };
    let (_, once) = add_owner_spec(m, name, chat);
    lemma_index_after_replace(m, i, q, name);
    assert(once.profiles == m.profiles);
    let k = p.owners.len() as int;
    assert(q.owners[k] == u);
    assert(q.owners.contains(u));
    assert forall|j: int| 0 <= j < k implies !equals(u)(#[trigger] q.owners[j]) by {
        if q.owners[j] == u {
            assert(p.owners[j] == u);
            assert(p.owners.contains(u));
        }
    }
    assert(is_first_where(q.owners, equals(u), k));
    lemma_first_where_at(q.owners, equals(u), k);
    assert(remove_value(q.owners, u) =~= p.owners);
    let r = ProjectModel { owners: remove_value(q.owners, u), ..q };
    assert(r == p);
    let (_, back) = remove_owner_spec(once, name, chat);
    assert(back.projects =~= m.projects);
    assert(back =~= m);
}

/// Adding an owner through a chat identity that no profile links is refused
/// as unlinked and changes nothing.
pub proof fn lemma_add_owner_unlinked(m: ManifestModel, name: Seq<char>, chat: Seq<char>)
    requires
        m.has_project(name),
        m.linked(chat) is None,
    ensures
        add_owner_spec(m, name, chat) == (Err::<(), RegistryError>(RegistryError::Unlinked), m),
{
    lemma_any_iff_first(m.projects, named(name));
}

/// Linking a chat identity twice keeps the second username only: the
/// identity then reads as linked to it, and the manifest is the one a single
/// link to it gives.
pub proof fn lemma_link_overwrites(m: ManifestModel, chat: Seq<char>, first: Seq<char>, second: Seq<char>)
    ensures
        m.with_link(chat, first).with_link(chat, second).linked(chat) == Some(second),
        m.with_link(chat, first).with_link(chat, second) == m.with_link(chat, second),
{
    lemma_any_iff_first(m.profiles, chat_is(chat));
    let once = m.with_link(chat, first);
    let twice = once.with_link(chat, second);
    let single = m.with_link(chat, second);
    let k = match first_where(m.profiles, chat_is(chat)) {
        Some(i) => i,
        None => m.profiles.len() as int,
    };
    assert forall|j: int| 0 <= j < k implies !chat_is(chat)(#[trigger] once.profiles[j]) by {
        assert(once.profiles[j] == m.profiles[j]);
    }
    assert(is_first_where(once.profiles, chat_is(chat), k));
    lemma_first_where_at(once.profiles, chat_is(chat), k);
    assert forall|j: int| 0 <= j < k implies !chat_is(chat)(#[trigger] twice.profiles[j]) by {
        assert(twice.profiles[j] == m.profiles[j]);
    }
    assert(is_first_where(twice.profiles, chat_is(chat), k));
    lemma_first_where_at(twice.profiles, chat_is(chat), k);
    assert(twice.profiles =~= single.profiles);
    assert(twice =~= single);
}

/// How the router reads the `create`, `github` and `delete` commands.
proof fn lemma_parse_session(name: Seq<char>, repo: Seq<char>)
    ensures
        parse_spec(seq!["create"@, name]) == (CommandModel::Create { name }),
        parse_spec(seq!["github"@, name, repo]) == (CommandModel::Github { name, repo }),
        parse_spec(seq!["delete"@, name]) == (CommandModel::Delete { name }),
{
    reveal_strlit("help");
    reveal_strlit("list");
    reveal_strlit("project");
    reveal_strlit("create");
    reveal_strlit("delete");
    reveal_strlit("add");
    reveal_strlit("remove");
    reveal_strlit("github");
    reveal_strlit("me");
    let create = seq!["create"@, name];
    let github = seq!["github"@, name, repo];
    let delete = seq!["delete"@, name];
    assert(create[0] == "create"@ && github[0] == "github"@ && delete[0] == "delete"@);
    assert("create"@[0] != "help"@[0] && "create"@[0] != "list"@[0]);
    assert("create"@[0] != "project"@[0]);
    assert("github"@[0] != "help"@[0] && "github"@[0] != "list"@[0]);
    assert("github"@[0] != "project"@[0] && "github"@[0] != "create"@[0]);
    assert("github"@[0] != "delete"@[0] && "github"@[0] != "add"@[0]);
    assert("github"@[0] != "remove"@[0]);
    assert("delete"@[0] != "help"@[0] && "delete"@[0] != "list"@[0]);
    assert("delete"@[0] != "project"@[0] && "delete"@[0] != "create"@[0]);
    assert(parse_spec(create) == CommandModel::Create { name });
    assert(parse_spec(github) == CommandModel::Github { name, repo });
    assert(parse_spec(delete) == CommandModel::Delete { name });
}

/// The command sequence create, github, delete on a free name: the project
/// is created in the sending channel, then records the repository, then is
/// gone, and the rest of the manifest is as it was.
pub proof fn lemma_create_github_delete(
    m: ManifestModel,
    name: Seq<char>,
    repo: Seq<char>,
    channel: Seq<char>,
    user: Seq<char>,
)
    requires
        !m.has_project(name),
    ensures
        ({
            let (o1, m1) = execute_spec(m, parse_spec(seq!["create"@, name]), channel, user);
            let (o2, m2) = execute_spec(m1, parse_spec(seq!["github"@, name, repo]), channel, user);
            let (o3, m3) = execute_spec(m2, parse_spec(seq!["delete"@, name]), channel, user);
            &&& o1 == Outcome::Created
            &&& m1.project(name) matches Some(p) && p.channel == channel
            &&& o2 == Outcome::RepositorySet
            &&& m2.project(name) matches Some(p) && p.repository == Some(repo)
            &&& o3 == Outcome::Deleted
            &&& m3.project(name) is None
            &&& m3 == m
        }),
{
    lemma_parse_session(name, repo);
    lemma_create_then_lookup(m, name, channel);
    let m1 = m.with_project(name, channel);
    let n = m.projects.len() as int;
    let q = ProjectModel { repository: Some(repo), ..fresh_project(channel) };
    lemma_index_after_replace(m1, n, q, name);
    let m2 = m1.with_project_at(n, q);
    assert(m2.projects.remove(n) =~= m.projects);
    let m3 = m2.without_project_at(n);
    assert(m3 =~= m);
    lemma_any_iff_first(m.projects, named(name));
}

proof fn lemma_verbs_are_words()
    ensures
        is_word("create"@),
        is_word("github"@),
        is_word("delete"@),
{
    reveal_strlit("create");
    reveal_strlit("github");
    reveal_strlit("delete");
}

/// How the handler reads message text: `create`, `github` and `delete`
/// written with single spaces, on a name and a repository reference that
/// hold no white space, are the commands that the session above applies.
pub proof fn lemma_text_session_commands(name: Seq<char>, repo: Seq<char>)
    requires
        is_word(name),
        is_word(repo),
    ensures
        parse_spec(whitespace_tokens("create"@ + seq![' '] + name)) == (CommandModel::Create { name }),
        parse_spec(whitespace_tokens("github"@ + seq![' '] + name + seq![' '] + repo))
            == (CommandModel::Github { name, repo }),
        parse_spec(whitespace_tokens("delete"@ + seq![' '] + name)) == (CommandModel::Delete { name }),
{
    lemma_verbs_are_words();
    lemma_tokens_two_words("create"@, name);
    lemma_tokens_three_words("github"@, name, repo);
    lemma_tokens_two_words("delete"@, name);
    lemma_parse_session(name, repo);
}

} // verus!
