use ctrl::command::{mention_identity, parse_command, parse_tokens, Command, Handler, Outcome};
use ctrl::manifest::{Manifest, DEFAULT_CONFIGURED_PROJECT};
use ctrl::registry::{
    add_owner, create_project, delete_project, get_project_by_github_repo,
    get_project_by_jira_project, get_project_by_name, get_project_by_slack_channel,
    get_slack_by_github_username, get_user_by_github_username, get_user_by_slack_id,
    owner_contacts, remove_owner, set_repository, set_user_github_username, RegistryError,
};
use ctrl::store::{check_manifest, recover_manifest};

fn owners_of(m: &Manifest, name: &str) -> Vec<String> {
    get_project_by_name(m, name).unwrap().project_owners.clone()
}

#[test]
fn create_then_lookup_gives_fresh_project() {
    let mut m = Manifest::default();
    assert_eq!(create_project(&mut m, "widgets", "C1"), Ok(()));
    let p = get_project_by_name(&m, "widgets").unwrap();
    assert_eq!(p.slack_channel, "C1");
    assert!(p.project_owners.is_empty());
    assert_eq!(p.github_repo, None);
    assert_eq!(p.jira_project, None);
}

#[test]
fn create_twice_is_refused_and_changes_nothing() {
    let mut m = Manifest::default();
    assert_eq!(create_project(&mut m, "widgets", "C1"), Ok(()));
    let once = m.clone();
    assert_eq!(create_project(&mut m, "widgets", "C2"), Err(RegistryError::AlreadyExists));
    assert_eq!(m, once);
}

#[test]
fn delete_missing_is_not_found() {
    let mut m = Manifest::default();
    create_project(&mut m, "widgets", "C1").unwrap();
    let before = m.clone();
    assert_eq!(delete_project(&mut m, "gadgets"), Err(RegistryError::NotFound));
    assert_eq!(m, before);
}

#[test]
fn delete_existing_removes_only_it() {
    let mut m = Manifest::default();
    create_project(&mut m, "a", "C1").unwrap();
    create_project(&mut m, "b", "C2").unwrap();
    create_project(&mut m, "c", "C3").unwrap();
    assert_eq!(delete_project(&mut m, "b"), Ok(()));
    assert!(get_project_by_name(&m, "b").is_none());
    assert_eq!(m.projects.len(), 2);
    assert_eq!(m.projects[0].name, "a");
    assert_eq!(m.projects[1].name, "c");
}

#[test]
fn add_owner_twice_keeps_one_entry() {
    let mut m = Manifest::default();
    create_project(&mut m, "widgets", "C1").unwrap();
    set_user_github_username(&mut m, "U1", "alice");
    assert_eq!(add_owner(&mut m, "widgets", "U1"), Ok(()));
    let once = m.clone();
    assert_eq!(add_owner(&mut m, "widgets", "U1"), Err(RegistryError::AlreadyOwner));
    assert_eq!(m, once);
    assert_eq!(owners_of(&m, "widgets"), vec!["alice".to_string()]);
}

#[test]
fn add_then_remove_owner_restores_owners() {
    let mut m = Manifest::default();
    create_project(&mut m, "widgets", "C1").unwrap();
    set_user_github_username(&mut m, "U1", "alice");
    set_user_github_username(&mut m, "U2", "bob");
    add_owner(&mut m, "widgets", "U2").unwrap();
    let before = m.clone();
    assert_eq!(add_owner(&mut m, "widgets", "U1"), Ok(()));
    assert_eq!(owners_of(&m, "widgets"), vec!["bob".to_string(), "alice".to_string()]);
    assert_eq!(remove_owner(&mut m, "widgets", "U1"), Ok(()));
    assert_eq!(owners_of(&m, "widgets"), vec!["bob".to_string()]);
    assert_eq!(m, before);
}

#[test]
fn add_owner_unlinked_is_refused() {
    let mut m = Manifest::default();
    create_project(&mut m, "widgets", "C1").unwrap();
    let before = m.clone();
    assert_eq!(add_owner(&mut m, "widgets", "U9"), Err(RegistryError::Unlinked));
    assert_eq!(m, before);
}

#[test]
fn owner_errors_for_each_precondition() {
    let mut m = Manifest::default();
    create_project(&mut m, "widgets", "C1").unwrap();
    set_user_github_username(&mut m, "U1", "alice");
    assert_eq!(add_owner(&mut m, "nothing", "U1"), Err(RegistryError::NotFound));
    assert_eq!(remove_owner(&mut m, "nothing", "U1"), Err(RegistryError::NotFound));
    assert_eq!(remove_owner(&mut m, "widgets", "U9"), Err(RegistryError::Unlinked));
    assert_eq!(remove_owner(&mut m, "widgets", "U1"), Err(RegistryError::NotOwner));
}

#[test]
fn link_twice_overwrites() {
    let mut m = Manifest::default();
    set_user_github_username(&mut m, "U1", "alice");
    set_user_github_username(&mut m, "U1", "bob");
    assert_eq!(m.profiles.len(), 1);
    assert_eq!(get_user_by_slack_id(&m, "U1").unwrap().github_username, "bob");
    assert!(get_user_by_github_username(&m, "alice").is_none());
}

#[test]
fn reverse_lookup_takes_first_link() {
    let mut m = Manifest::default();
    set_user_github_username(&mut m, "U1", "alice");
    set_user_github_username(&mut m, "U2", "alice");
    assert_eq!(get_slack_by_github_username(&m, "alice"), Some("U1".to_string()));
    assert_eq!(get_user_by_github_username(&m, "alice").unwrap().github_username, "alice");
    assert_eq!(get_slack_by_github_username(&m, "carol"), None);
    assert!(get_user_by_slack_id(&m, "U3").is_none());
}

#[test]
fn lookups_by_channel_repository_and_tracker() {
    let mut m = Manifest::default();
    create_project(&mut m, "a", "C1").unwrap();
    create_project(&mut m, "b", "C2").unwrap();
    create_project(&mut m, "c", "C2").unwrap();
    set_repository(&mut m, "b", "acme/b").unwrap();
    m.projects[2].project.jira_project = Some("CTRL".to_string());
    assert_eq!(get_project_by_slack_channel(&m, "C2").unwrap().github_repo, Some("acme/b".to_string()));
    assert!(get_project_by_slack_channel(&m, "C9").is_none());
    assert_eq!(get_project_by_github_repo(&m, "acme/b").unwrap().slack_channel, "C2");
    assert!(get_project_by_github_repo(&m, "acme/x").is_none());
    // an unset repository reads as empty
    assert_eq!(get_project_by_github_repo(&m, "").unwrap().slack_channel, "C1");
    assert_eq!(get_project_by_jira_project(&m, "CTRL").unwrap().slack_channel, "C2");
    assert_eq!(get_project_by_jira_project(&m, "").unwrap().slack_channel, "C1");
}

#[test]
fn set_repository_overwrites_and_reports_missing() {
    let mut m = Manifest::default();
    create_project(&mut m, "widgets", "C1").unwrap();
    set_repository(&mut m, "widgets", "acme/one").unwrap();
    set_repository(&mut m, "widgets", "acme/two").unwrap();
    assert_eq!(get_project_by_name(&m, "widgets").unwrap().github_repo, Some("acme/two".to_string()));
    assert_eq!(set_repository(&mut m, "gadgets", "acme/x"), Err(RegistryError::NotFound));
}

#[test]
fn owner_contacts_skip_unlinked_owners() {
    let mut m = Manifest::default();
    set_user_github_username(&mut m, "U1", "alice");
    let owners = vec!["ghost".to_string(), "alice".to_string()];
    let cs = owner_contacts(&m, &owners);
    assert_eq!(cs.len(), 1);
    assert_eq!(cs[0].slack_id, "U1");
    assert_eq!(cs[0].github_username, "alice");
}

#[test]
fn first_run_manifest_is_empty() {
    let m = recover_manifest(None);
    assert!(m.projects.is_empty());
    assert!(m.profiles.is_empty());
    assert!(m.managers.is_empty());
    assert_eq!(m.configured_project, DEFAULT_CONFIGURED_PROJECT);
    assert_eq!(m.configured_project, "amcwb/ctrl");
    assert_eq!(Manifest::default(), m);
}

#[test]
fn recover_keeps_well_formed_and_drops_corrupt() {
    let mut m = Manifest::default();
    create_project(&mut m, "widgets", "C1").unwrap();
    m.managers.push("boss".to_string());
    assert!(check_manifest(&m));
    assert_eq!(recover_manifest(Some(m.clone())), m);
    let mut bad = m.clone();
    bad.projects.push(bad.projects[0].clone());
    assert!(!check_manifest(&bad));
    assert_eq!(recover_manifest(Some(bad)), Manifest::default());
    let mut dup_owner = m.clone();
    dup_owner.projects[0].project.project_owners = vec!["a".to_string(), "a".to_string()];
    assert!(!check_manifest(&dup_owner));
    let mut dup_profile = m.clone();
    set_user_github_username(&mut dup_profile, "U1", "a");
    dup_profile.profiles.push(dup_profile.profiles[0].clone());
    assert!(!check_manifest(&dup_profile));
}

#[test]
fn parse_each_verb() {
    assert_eq!(parse_command("help"), Command::Help);
    assert_eq!(parse_command("list"), Command::List);
    assert_eq!(parse_command("project widgets"), Command::ShowProject { name: "widgets".to_string() });
    assert_eq!(parse_command("create widgets"), Command::Create { name: "widgets".to_string() });
    assert_eq!(parse_command("delete widgets"), Command::Delete { name: "widgets".to_string() });
    assert_eq!(
        parse_command("add widgets U1"),
        Command::Add { name: "widgets".to_string(), user: "U1".to_string() }
    );
    assert_eq!(
        parse_command("remove widgets U1"),
        Command::Remove { name: "widgets".to_string(), user: "U1".to_string() }
    );
    assert_eq!(
        parse_command("  github \t widgets   acme/widgets "),
        Command::Github { name: "widgets".to_string(), repo: "acme/widgets".to_string() }
    );
    assert_eq!(parse_command("me github alice"), Command::LinkGithub { username: "alice".to_string() });
}

#[test]
fn parse_invalid_commands() {
    assert_eq!(parse_command(""), Command::Unknown);
    assert_eq!(parse_command("   "), Command::Unknown);
    assert_eq!(parse_command("Help"), Command::Unknown);
    assert_eq!(parse_command("frobnicate x"), Command::Unknown);
    assert_eq!(parse_command("me gitlab alice"), Command::Unknown);
    assert_eq!(parse_command("create"), Command::MissingArguments);
    assert_eq!(parse_command("add widgets"), Command::MissingArguments);
    assert_eq!(parse_command("me github"), Command::MissingArguments);
}

#[test]
fn create_github_delete_from_a_channel() {
    let h = Handler;
    let mut m = Manifest::default();
    assert_eq!(h.on_slash_command(&mut m, "create widgets", "C7", "U1"), Outcome::Created);
    assert_eq!(get_project_by_name(&m, "widgets").unwrap().slack_channel, "C7");
    assert_eq!(
        h.on_slash_command(&mut m, "github widgets acme/widgets", "C7", "U1"),
        Outcome::RepositorySet
    );
    assert_eq!(
        get_project_by_name(&m, "widgets").unwrap().github_repo,
        Some("acme/widgets".to_string())
    );
    assert_eq!(h.on_slash_command(&mut m, "delete widgets", "C7", "U1"), Outcome::Deleted);
    assert!(get_project_by_name(&m, "widgets").is_none());
}

#[test]
fn handler_outcomes_and_saving() {
    let h = Handler;
    let mut m = Manifest::default();
    assert_eq!(h.on_slash_command(&mut m, "help", "C1", "U1"), Outcome::Help);
    assert_eq!(h.on_slash_command(&mut m, "list", "C1", "U1"), Outcome::Listing);
    assert_eq!(h.on_slash_command(&mut m, "bogus", "C1", "U1"), Outcome::InvalidCommand);
    assert_eq!(h.on_slash_command(&mut m, "project", "C1", "U1"), Outcome::InvalidCommand);
    assert_eq!(h.on_slash_command(&mut m, "create", "C1", "U1"), Outcome::InvalidCommand);
    assert_eq!(h.on_slash_command(&mut m, "add widgets", "C1", "U1"), Outcome::InvalidCommand);
    assert!(m.projects.is_empty());
    assert_eq!(
        h.on_slash_command(&mut m, "project widgets", "C1", "U1"),
        Outcome::Refused(RegistryError::NotFound)
    );
    assert_eq!(h.on_slash_command(&mut m, "create widgets", "C1", "U1"), Outcome::Created);
    assert_eq!(h.on_slash_command(&mut m, "project widgets", "C1", "U1"), Outcome::ProjectDetail);
    assert_eq!(
        h.on_slash_command(&mut m, "add widgets U1", "C1", "U1"),
        Outcome::Refused(RegistryError::Unlinked)
    );
    assert_eq!(h.on_slash_command(&mut m, "me github alice", "C1", "U1"), Outcome::Linked);
    assert_eq!(h.on_slash_command(&mut m, "add widgets U1", "C1", "U2"), Outcome::OwnerAdded);
    assert_eq!(owners_of(&m, "widgets"), vec!["alice".to_string()]);
    assert_eq!(h.on_slash_command(&mut m, "remove widgets U1", "C1", "U2"), Outcome::OwnerRemoved);
    assert!(Outcome::Created.changes_manifest());
    assert!(Outcome::Linked.changes_manifest());
    assert!(!Outcome::Listing.changes_manifest());
    assert!(!Outcome::Refused(RegistryError::NotOwner).changes_manifest());
}

#[test]
fn mentions_name_chat_identities() {
    assert_eq!(mention_identity("<@U1>"), "U1");
    assert_eq!(mention_identity("<@U1|alice>"), "U1");
    assert_eq!(mention_identity("<@|x>"), "");
    assert_eq!(mention_identity("U1"), "U1");
    assert_eq!(mention_identity("<@U1"), "<@U1");
    assert_eq!(mention_identity("<@>"), "");
    assert_eq!(mention_identity("<>"), "<>");
    assert_eq!(mention_identity("<@Ü|ä>"), "Ü");
}

#[test]
fn add_and_remove_by_mention() {
    let h = Handler;
    let mut m = Manifest::default();
    h.on_slash_command(&mut m, "create widgets", "C1", "U1");
    h.on_slash_command(&mut m, "me github alice", "C1", "U1");
    assert_eq!(h.on_slash_command(&mut m, "add widgets <@U1|alice>", "C1", "U2"), Outcome::OwnerAdded);
    assert_eq!(
        h.on_slash_command(&mut m, "add widgets <@U1>", "C1", "U2"),
        Outcome::Refused(RegistryError::AlreadyOwner)
    );
    assert_eq!(h.on_slash_command(&mut m, "remove widgets <@U1>", "C1", "U2"), Outcome::OwnerRemoved);
    assert_eq!(
        h.on_slash_command(&mut m, "remove widgets <@U1>", "C1", "U2"),
        Outcome::Refused(RegistryError::NotOwner)
    );
    assert_eq!(
        h.on_slash_command(&mut m, "remove gadgets <@U1>", "C1", "U2"),
        Outcome::Refused(RegistryError::NotFound)
    );
    assert_eq!(
        h.on_slash_command(&mut m, "create widgets", "C2", "U2"),
        Outcome::Refused(RegistryError::AlreadyExists)
    );
    assert_eq!(get_project_by_name(&m, "widgets").unwrap().slack_channel, "C1");
}

#[test]
fn parse_from_tokens_ignores_surplus() {
    let tokens = vec!["create".to_string(), "a".to_string(), "b".to_string()];
    assert_eq!(parse_tokens(&tokens), Command::Create { name: "a".to_string() });
    assert_eq!(parse_tokens(&Vec::new()), Command::Unknown);
}

#[test]
fn unicode_white_space_separates_tokens() {
    assert_eq!(parse_command("create\u{3000}widgets"), Command::Create { name: "widgets".to_string() });
    assert_eq!(parse_command("create\u{a0}widgets"), Command::Create { name: "widgets".to_string() });
    assert_eq!(parse_command("create\u{2028}\u{85}widgets\n"), Command::Create { name: "widgets".to_string() });
    // a zero-width space is not white space
    assert_eq!(parse_command("create\u{200b}widgets"), Command::Unknown);
}
