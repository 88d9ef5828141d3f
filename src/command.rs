//! The command router: whitespace-separated command text becomes a closed
//! set of commands, each dispatched to one registry operation.

use vstd::prelude::*;
use crate::manifest::{Manifest, ManifestModel, named, strs_view};
use crate::search::{first_where, lemma_any_iff_first, lemma_first_where_at, lemma_first_where_none};
use vstd::string::StrSliceExecFns;
use crate::registry::{
    RegistryError, create_spec, delete_spec, add_owner_spec, remove_owner_spec,
    set_repository_spec, create_project, delete_project, add_owner, remove_owner, set_repository,
    set_user_github_username, find_project,
};

verus! {

/// Whether `c` has the Unicode property White_Space.
pub open spec fn is_white_space(c: char) -> bool {
    let u = c as u32;
    ||| 0x9 <= u <= 0xd
    ||| u == 0x20
    ||| u == 0x85
    ||| u == 0xa0
    ||| u == 0x1680
    ||| 0x2000 <= u <= 0x200a
    ||| u == 0x2028
    ||| u == 0x2029
    ||| u == 0x202f
    ||| u == 0x205f
    ||| u == 0x3000
}

/// The maximal runs of characters of `s` that are not white space, in order.
#[verifier::opaque]
pub open spec fn whitespace_tokens(s: Seq<char>) -> Seq<Seq<char>>
    decreases s.len(),
{
    if s.len() == 0 {
        Seq::empty()
    } else {
        let rest = whitespace_tokens(s.drop_last());
        let c = s.last();
        if is_white_space(c) {
            rest
        } else if s.len() >= 2 && !is_white_space(s[s.len() - 2]) {
            rest.update(rest.len() - 1, rest.last().push(c))
        } else {
            rest.push(seq![c])
        }
    }
}

#[verifier::external_body]
fn split_tokens(text: &str) -> (r: Vec<String>)
    ensures
        strs_view(r@) == whitespace_tokens(text@),
{
    text.split_whitespace().map(|t| t.to_string()).collect()
}

/// A parsed command, each variant with the arguments it needs.
#[derive(Debug, Clone, PartialEq, Eq)]
pub enum Command {
    Help,
    List,
    ShowProject { name: String },
    Create { name: String },
    Delete { name: String },
    Add { name: String, user: String },
    Remove { name: String, user: String },
    Github { name: String, repo: String },
    LinkGithub { username: String },
    /// A known verb with fewer arguments than it needs; handled as an
    /// invalid command, kept apart so that the reply can say what is missing.
    MissingArguments,
    Unknown,
}

pub enum CommandModel {
    Help,
    List,
    ShowProject { name: Seq<char> },
    Create { name: Seq<char> },
    Delete { name: Seq<char> },
    Add { name: Seq<char>, user: Seq<char> },
    Remove { name: Seq<char>, user: Seq<char> },
    Github { name: Seq<char>, repo: Seq<char> },
    LinkGithub { username: Seq<char> },
    MissingArguments,
    Unknown,
}

impl View for Command {
    type V = CommandModel;

    open spec fn view(&self) -> CommandModel {
        match self {
            Command::Help => CommandModel::Help,
            Command::List => CommandModel::List,
            Command::ShowProject { name } => CommandModel::ShowProject { name: name@ },
            Command::Create { name } => CommandModel::Create { name: name@ },
            Command::Delete { name } => CommandModel::Delete { name: name@ },
            Command::Add { name, user } => CommandModel::Add { name: name@, user: user@ },
            Command::Remove { name, user } => CommandModel::Remove { name: name@, user: user@ },
            Command::Github { name, repo } => CommandModel::Github { name: name@, repo: repo@ },
            Command::LinkGithub { username } => CommandModel::LinkGithub { username: username@ },
            Command::MissingArguments => CommandModel::MissingArguments,
            Command::Unknown => CommandModel::Unknown,
        }
    }
}

/// The command that tokens `t` spell: the first token is the verb, matched
/// exactly, the rest are its arguments; surplus arguments are ignored.
pub open spec fn parse_spec(t: Seq<Seq<char>>) -> CommandModel {
    if t.len() == 0 {
        CommandModel::Unknown
    } else if t[0] == "help"@ {
        CommandModel::Help
    } else if t[0] == "list"@ {
        CommandModel::List
    } else if t[0] == "project"@ {
        if t.len() < 2 { CommandModel::MissingArguments } else { CommandModel::ShowProject { name: t[1] } }
    } else if t[0] == "create"@ {
        if t.len() < 2 { CommandModel::MissingArguments } else { CommandModel::Create { name: t[1] } }
    } else if t[0] == "delete"@ {
        if t.len() < 2 { CommandModel::MissingArguments } else { CommandModel::Delete { name: t[1] } }
    } else if t[0] == "add"@ {
        if t.len() < 3 {
            CommandModel::MissingArguments
        } else {
            CommandModel::Add { name: t[1], user: t[2] }
        }
    } else if t[0] == "remove"@ {
        if t.len() < 3 {
            CommandModel::MissingArguments
        } else {
            CommandModel::Remove { name: t[1], user: t[2] }
        }
    } else if t[0] == "github"@ {
        if t.len() < 3 {
            CommandModel::MissingArguments
        } else {
            CommandModel::Github { name: t[1], repo: t[2] }
        }
    } else if t[0] == "me"@ {
        if t.len() < 3 {
            CommandModel::MissingArguments
        } else if t[1] == "github"@ {
            CommandModel::LinkGithub { username: t[2] }
        } else {
            CommandModel::Unknown
        }
    } else {
        CommandModel::Unknown
    }
}

fn token_is(token: &String, word: &str) -> (r: bool)
    ensures
        r == (token@ == word@),
{
    let w = word.to_owned();
    *token == w
}

/// Reads a command from its tokens.
pub fn parse_tokens(tokens: &Vec<String>) -> (r: Command)
    ensures
        r@ == parse_spec(strs_view(tokens@)),
{
    let ghost t = strs_view(tokens@);
    let n = tokens.len();
    if n == 0 {
        return Command::Unknown;
    }
    proof {
        assert(t[0] == tokens@[0]@);
    }
    let verb = &tokens[0];
    if token_is(verb, "help") {
        Command::Help
    } else if token_is(verb, "list") {
        Command::List
    } else if token_is(verb, "project") {
        if n < 2 { Command::MissingArguments } else { Command::ShowProject { name: tokens[1].clone() } }
    } else if token_is(verb, "create") {
        if n < 2 { Command::MissingArguments } else { Command::Create { name: tokens[1].clone() } }
    } else if token_is(verb, "delete") {
        if n < 2 { Command::MissingArguments } else { Command::Delete { name: tokens[1].clone() } }
    } else if token_is(verb, "add") {
        if n < 3 {
            Command::MissingArguments
        } else {
            Command::Add { name: tokens[1].clone(), user: tokens[2].clone() }
        }
    } else if token_is(verb, "remove") {
        if n < 3 {
            Command::MissingArguments
        } else {
            Command::Remove { name: tokens[1].clone(), user: tokens[2].clone() }
        }
    } else if token_is(verb, "github") {
        if n < 3 {
            Command::MissingArguments
        } else {
            Command::Github { name: tokens[1].clone(), repo: tokens[2].clone() }
        }
    } else if token_is(verb, "me") {
        if n < 3 {
            Command::MissingArguments
        } else if token_is(&tokens[1], "github") {
            Command::LinkGithub { username: tokens[2].clone() }
        } else {
            Command::Unknown
        }
    } else {
        Command::Unknown
    }
}

/// Reads a command from the text of a chat message.
pub fn parse_command(text: &str) -> (r: Command)
    ensures
        r@ == parse_spec(whitespace_tokens(text@)),
{
    let tokens = split_tokens(text);
    parse_tokens(&tokens)
}

} // verus!

verus! {

pub open spec fn is_bar() -> spec_fn(char) -> bool {
    |c: char| c == '|'
}

/// The chat identity that a mention token names: `<@ID>` and `<@ID|label>`
/// name `ID`; any other token is read as an identity itself.
pub open spec fn mention_spec(t: Seq<char>) -> Seq<char> {
    if t.len() >= 3 && t[0] == '<' && t[1] == '@' && t[t.len() - 1] == '>' {
        let inner = t.subrange(2, t.len() - 1);
        match first_where(inner, is_bar()) {
            Some(k) => inner.subrange(0, k),
            None => inner,
        }
    } else {
        t
    }
}

/// Reads the chat identity out of a mention token.
pub fn mention_identity(token: &str) -> (r: String)
    ensures
        r@ == mention_spec(token@),
{
    let n = token.unicode_len();
    if n >= 3 && token.get_char(0) == '<' && token.get_char(1) == '@' && token.get_char(n - 1)
        == '>' {
        let inner = token.substring_char(2, n - 1);
        let m = n - 3;
        let mut k: usize = 0;
        while k < m
            invariant
                k <= m,
                inner@.len() == m,
                n == token@.len(),
                n >= 3 && token@[0] == '<' && token@[1] == '@' && token@[n - 1] == '>',
                inner@ == token@.subrange(2, n - 1),
                forall|j: int| 0 <= j < k ==> !is_bar()(#[trigger] inner@[j]),
            decreases m - k,
        {
            if inner.get_char(k) == '|' {
                proof {
                    lemma_first_where_at(inner@, is_bar(), k as int);
                }
                return inner.substring_char(0, k).to_owned();
            }
            k += 1;
        }
        proof {
            lemma_first_where_none(inner@, is_bar());
        }
        inner.to_owned()
    } else {
        token.to_owned()
    }
}

/// What handling one command came to, for the message layer to render.
#[derive(PartialEq, Eq, Structural, Debug, Clone, Copy)]
pub enum Outcome {
    Help,
    Listing,
    ProjectDetail,
    Created,
    Deleted,
    OwnerAdded,
    OwnerRemoved,
    RepositorySet,
    Linked,
    InvalidCommand,
    Refused(RegistryError),
}

impl Outcome {
    pub open spec fn spec_changes_manifest(&self) -> bool {
        match self {
            Outcome::Created | Outcome::Deleted | Outcome::OwnerAdded | Outcome::OwnerRemoved
            | Outcome::RepositorySet | Outcome::Linked => true,
            _ => false,
        }
    }

    /// Whether the command changed the manifest, which must then be saved.
    #[verifier::when_used_as_spec(spec_changes_manifest)]
    pub fn changes_manifest(&self) -> (r: bool)
        ensures
            r == self.spec_changes_manifest(),
    {
        match self {
            Outcome::Created | Outcome::Deleted | Outcome::OwnerAdded | Outcome::OwnerRemoved
            | Outcome::RepositorySet | Outcome::Linked => true,
            _ => false,
        }
    }
}

pub open spec fn outcome_of(r: Result<(), RegistryError>, done: Outcome) -> Outcome {
    match r {
        Ok(()) => done,
        Err(e) => Outcome::Refused(e),
    }
}

/// The outcome of command `c`, sent from `channel` by chat identity `user`,
/// and the manifest after it.
pub open spec fn execute_spec(
    m: ManifestModel,
    c: CommandModel,
    channel: Seq<char>,
    user: Seq<char>,
) -> (Outcome, ManifestModel) {
    match c {
        CommandModel::Help => (Outcome::Help, m),
        CommandModel::List => (Outcome::Listing, m),
        CommandModel::ShowProject { name } => if m.has_project(name) {
            (Outcome::ProjectDetail, m)
        } else {
            (Outcome::Refused(RegistryError::NotFound), m)
        },
        CommandModel::Create { name } => {
            let (r, after) = create_spec(m, name, channel);
            (outcome_of(r, Outcome::Created), after)
        },
        CommandModel::Delete { name } => {
            let (r, after) = delete_spec(m, name);
            (outcome_of(r, Outcome::Deleted), after)
        },
        CommandModel::Add { name, user: target } => {
            let (r, after) = add_owner_spec(m, name, mention_spec(target));
            (outcome_of(r, Outcome::OwnerAdded), after)
        },
        CommandModel::Remove { name, user: target } => {
            let (r, after) = remove_owner_spec(m, name, mention_spec(target));
            (outcome_of(r, Outcome::OwnerRemoved), after)
        },
        CommandModel::Github { name, repo } => {
            let (r, after) = set_repository_spec(m, name, repo);
            (outcome_of(r, Outcome::RepositorySet), after)
        },
        CommandModel::LinkGithub { username } => (Outcome::Linked, m.with_link(user, username)),
        CommandModel::MissingArguments => (Outcome::InvalidCommand, m),
        CommandModel::Unknown => (Outcome::InvalidCommand, m),
    }
}

fn outcome(r: Result<(), RegistryError>, done: Outcome) -> (o: Outcome)
    ensures
        o == outcome_of(r, done),
{
    match r {
        Ok(()) => done,
        Err(e) => Outcome::Refused(e),
    }
}

/// Applies command `command`, sent from `channel` by chat identity `user`;
/// the user argument of `add` and `remove` is a mention.
pub fn execute(manifest: &mut Manifest, command: &Command, channel: &str, user: &str) -> (r:
    Outcome)
    requires
        old(manifest).wf(),
    ensures
        final(manifest).wf(),
        (r, final(manifest)@) == execute_spec(old(manifest)@, command@, channel@, user@),
        !r.changes_manifest() ==> final(manifest)@ == old(manifest)@,
{
    match command {
        Command::Help => Outcome::Help,
        Command::List => Outcome::Listing,
        Command::ShowProject { name } => {
            proof {
                lemma_any_iff_first(manifest@.projects, named(name@));
            }
            match find_project(manifest, name) {
                Some(_) => Outcome::ProjectDetail,
                None => Outcome::Refused(RegistryError::NotFound),
            }
        },
        Command::Create { name } => outcome(create_project(manifest, name.as_str(), channel), Outcome::Created),
        Command::Delete { name } => outcome(delete_project(manifest, name.as_str()), Outcome::Deleted),
        Command::Add { name, user: target } => outcome(
            add_owner(manifest, name.as_str(), mention_identity(target.as_str()).as_str()),
            Outcome::OwnerAdded,
        ),
        Command::Remove { name, user: target } => outcome(
            remove_owner(manifest, name.as_str(), mention_identity(target.as_str()).as_str()),
            Outcome::OwnerRemoved,
        ),
        Command::Github { name, repo } => outcome(
            set_repository(manifest, name.as_str(), repo.as_str()),
            Outcome::RepositorySet,
        ),
        Command::LinkGithub { username } => {
            set_user_github_username(manifest, user, username.as_str());
            Outcome::Linked
        },
        Command::MissingArguments => Outcome::InvalidCommand,
        Command::Unknown => Outcome::InvalidCommand,
    }
}

/// Receives slash commands from the chat transport and decides what each does.
pub struct Handler;

impl Handler {
    /// Parses `text`, sent from `channel` by chat identity `user`, and applies it.
    pub fn on_slash_command(&self, manifest: &mut Manifest, text: &str, channel: &str, user: &str) -> (r:
        Outcome)
        requires
            old(manifest).wf(),
        ensures
            final(manifest).wf(),
            (r, final(manifest)@) == execute_spec(
                old(manifest)@,
                parse_spec(whitespace_tokens(text@)),
                channel@,
                user@,
            ),
    {
        let command = parse_command(text);
        execute(manifest, &command, channel, user)
    }
}

} // verus!

verus! {

/// A non-empty run of characters none of which is white space.
pub open spec fn is_word(w: Seq<char>) -> bool {
    w.len() > 0 && forall|i: int| 0 <= i < w.len() ==> !is_white_space(#[trigger] w[i])
}

/// A word written after the start of a text, or after white space, adds
/// itself as one token.
pub proof fn lemma_tokens_append_word(s: Seq<char>, w: Seq<char>)
    requires
        is_word(w),
        s.len() == 0 || is_white_space(s.last()),
    ensures
        whitespace_tokens(s + w) == whitespace_tokens(s).push(w),
    decreases w.len(),
{
    reveal(whitespace_tokens);
    let sw = s + w;
    assert(sw.last() == w.last());
    if w.len() == 1 {
        assert(sw.drop_last() =~= s);
        assert(seq![w.last()] =~= w);
        if s.len() > 0 {
            assert(sw[sw.len() - 2] == s.last());
        }
    } else {
        let w0 = w.drop_last();
        assert(is_word(w0)) by {
            assert forall|i: int| 0 <= i < w0.len() implies !is_white_space(#[trigger] w0[i]) by {
                assert(w0[i] == w[i]);
            }
        }
        lemma_tokens_append_word(s, w0);
        assert(sw.drop_last() =~= s + w0);
        assert(sw[sw.len() - 2] == w[w.len() - 2]);
        assert(w0.push(w.last()) =~= w);
    }
}

/// A white-space character at the end of a text adds no token.
pub proof fn lemma_tokens_append_space(s: Seq<char>, c: char)
    requires
        is_white_space(c),
    ensures
        whitespace_tokens(s.push(c)) == whitespace_tokens(s),
{
    reveal(whitespace_tokens);
    assert(s.push(c).drop_last() =~= s);
}

/// The words of a text written with single spaces between them.
pub proof fn lemma_tokens_two_words(a: Seq<char>, b: Seq<char>)
    requires
        is_word(a),
        is_word(b),
    ensures
        whitespace_tokens(a + seq![' '] + b) == seq![a, b],
{
    reveal(whitespace_tokens);
    lemma_tokens_append_word(Seq::empty(), a);
    assert(Seq::<char>::empty() + a =~= a);
    assert(whitespace_tokens(Seq::<char>::empty()) =~= Seq::<Seq<char>>::empty());
    lemma_tokens_append_space(a, ' ');
    assert(a + seq![' '] =~= a.push(' '));
    assert(is_white_space(' '));
    lemma_tokens_append_word(a + seq![' '], b);
    assert(seq![a].push(b) =~= seq![a, b]);
}

/// The words of a text of three words written with single spaces between them.
pub proof fn lemma_tokens_three_words(a: Seq<char>, b: Seq<char>, c: Seq<char>)
    requires
        is_word(a),
        is_word(b),
        is_word(c),
    ensures
        whitespace_tokens(a + seq![' '] + b + seq![' '] + c) == seq![a, b, c],
{
    lemma_tokens_two_words(a, b);
    let ab = a + seq![' '] + b;
    lemma_tokens_append_space(ab, ' ');
    assert(ab + seq![' '] =~= ab.push(' '));
    assert(is_white_space(' '));
    lemma_tokens_append_word(ab + seq![' '], c);
    assert(seq![a, b].push(c) =~= seq![a, b, c]);
}

} // verus!
