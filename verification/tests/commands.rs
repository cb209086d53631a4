use gack::action::Action;
use gack::commands::{command_catalog, first_matching_command, matching_commands, CommandId};

#[test]
fn unstage_query_prefers_unstage_over_stage() {
    let command = first_matching_command("unstage").unwrap();
    assert_eq!(command.id, CommandId::Unstage);
}

#[test]
fn panel_queries_are_discoverable() {
    assert_eq!(first_matching_command("history").unwrap().id, CommandId::Log);
    assert_eq!(first_matching_command("submodules").unwrap().id, CommandId::Repos);
}

#[test]
fn empty_query_lists_every_command() {
    assert_eq!(matching_commands("   ").len(), command_catalog().len());
    assert_eq!(command_catalog().len(), 30);
}

#[test]
fn queries_ignore_case_and_surrounding_space() {
    let found = first_matching_command("  PUSH current ").unwrap();
    assert_eq!(found.id, CommandId::PushCurrentBranch);
    assert_eq!(found.action, Action::PushCurrentBranch);
    assert!(first_matching_command("no such command at all").is_none());
}

fn ids(query: &str) -> Vec<CommandId> {
    matching_commands(query).iter().map(|c| c.id).collect()
}

#[test]
fn longer_queries_list_fewer_commands() {
    let short = ids("stage");
    let long = ids("stage hunk");
    assert!(!long.is_empty());
    assert!(long.len() < short.len());
    assert!(long.iter().all(|id| short.contains(id)));
    assert!(ids("no such command at all").is_empty());
}

#[test]
fn case_and_surrounding_space_do_not_matter() {
    assert_eq!(ids("  STAGE\t"), ids("stage"));
    assert_eq!(ids("\nRemote Push "), ids("remote push"));
    assert_eq!(ids("   "), ids(""));
    assert_eq!(ids("").len(), command_catalog().len());
}

#[test]
fn lower_casing_maps_ascii_capitals_only() {
    assert_eq!(gack::text::to_lowercase("Stage-All 2 [X]"), "stage-all 2 [x]");
    assert_eq!(gack::text::to_lowercase("ÄÖ"), "äö");
}
