use gack::git::repo::{changes_by_id, commit_precheck};
use gack::git::status::parse_status;
use gack::git::{ChangeId, ChangeKind, ChangeSection};
use gack::model::{AppState, RepoSummary};

#[test]
fn parses_staged_and_unstaged_same_file() {
    let raw = [
        b"# branch.head main\0".as_slice(),
        b"# branch.ab +2 -1\0".as_slice(),
        b"1 MM N... 100644 100644 100644 abc abc file.rs\0".as_slice(),
    ]
    .concat();
    let parsed = parse_status(&raw).unwrap();
    assert_eq!(parsed.branch, "main");
    assert_eq!(parsed.ahead, Some(2));
    assert_eq!(parsed.behind, Some(1));
    assert_eq!(parsed.changes.len(), 2);
    assert_eq!(parsed.changes[0].section, ChangeSection::Staged);
    assert_eq!(parsed.changes[1].section, ChangeSection::Unstaged);
}

#[test]
fn parses_untracked() {
    let parsed = parse_status(b"? docs/read me.md\0").unwrap();
    assert_eq!(parsed.changes.len(), 1);
    assert_eq!(parsed.changes[0].kind, ChangeKind::Untracked);
    assert_eq!(parsed.changes[0].path, b"docs/read me.md".to_vec());
}

#[test]
fn parses_rename_target_then_original() {
    let raw = b"2 R. N... 100644 100644 100644 abc abc R100 src/new name.rs\0src/old name.rs\0";
    let parsed = parse_status(raw).unwrap();
    assert_eq!(parsed.changes.len(), 1);
    assert_eq!(parsed.changes[0].kind, ChangeKind::Renamed);
    assert_eq!(parsed.changes[0].path, b"src/new name.rs".to_vec());
    assert_eq!(
        parsed.changes[0].original_path,
        Some(b"src/old name.rs".to_vec())
    );
}

#[test]
fn parses_unmerged_as_single_conflict_row() {
    let raw = b"u UU N... 100644 100644 100644 100644 abc abc abc file.rs\0";
    let parsed = parse_status(raw).unwrap();
    assert_eq!(parsed.changes.len(), 1);
    assert_eq!(parsed.changes[0].kind, ChangeKind::Conflict);
    assert_eq!(parsed.changes[0].section, ChangeSection::Conflict);
}

#[test]
fn change_ids_follow_row_order() {
    let raw = b"1 MM N... 100644 100644 100644 abc abc a.rs\0? b.rs\0";
    let parsed = parse_status(raw).unwrap();
    let ids: Vec<usize> = parsed.changes.iter().map(|c| c.id.0).collect();
    assert_eq!(ids, vec![0, 1, 2]);
    assert_eq!(parsed.changes[2].section, ChangeSection::Untracked);
}

#[test]
fn display_path_shows_rename_arrow() {
    let raw = b"2 R. N... 100644 100644 100644 abc abc R100 new.rs\0old.rs\0";
    let parsed = parse_status(raw).unwrap();
    assert_eq!(parsed.changes[0].display_path(), "old.rs -> new.rs");
    assert_eq!(parsed.changes[0].kind.tag(), "R");
    assert_eq!(parsed.changes[0].section.label(), "Staged");
}

#[test]
fn changes_are_found_again_by_id_in_request_order() {
    let raw = b"1 MM N... 100644 100644 100644 abc abc a.rs\0? b.rs\0";
    let changes = parse_status(raw).unwrap().changes;
    let found = changes_by_id(&changes, &[ChangeId(2), ChangeId(7), ChangeId(0)]);
    assert_eq!(found.len(), 2);
    assert_eq!(found[0].path, b"b.rs".to_vec());
    assert_eq!(found[0].section, ChangeSection::Untracked);
    assert_eq!(found[1].path, b"a.rs".to_vec());
    assert_eq!(found[1].section, ChangeSection::Staged);
}

#[test]
fn commit_needs_a_staged_change() {
    let staged = parse_status(b"1 M. N... 100644 100644 100644 abc abc a.rs\0").unwrap();
    assert!(commit_precheck(&staged.changes).is_ok());
    let unstaged = parse_status(b"1 .M N... 100644 100644 100644 abc abc a.rs\0? b.rs\0").unwrap();
    let err = commit_precheck(&unstaged.changes).unwrap_err();
    assert_eq!(err.to_string(), "there are no staged changes to commit");
    assert!(commit_precheck(&[]).is_err());
}

#[test]
fn selection_is_clamped_to_the_list() {
    let mut state = AppState::new(RepoSummary {
        root_label: "repo".to_string(),
        branch: "main".to_string(),
        ahead: None,
        behind: None,
    });
    state.selected = 4;
    state.clamp_selection();
    assert_eq!(state.selected, 0);
    state.changes = parse_status(b"? a.rs\0? b.rs\0").unwrap().changes;
    state.selected = 9;
    state.clamp_selection();
    assert_eq!(state.selected, 1);
    state.selected = 0;
    state.clamp_selection();
    assert_eq!(state.selected, 0);
}

#[test]
fn change_keys_compare_paths_by_component() {
    let changes = parse_status(b"? a/b\0? c\0").unwrap().changes;
    let mut odd = changes[0].key.clone();
    odd.path = b"a//./b/".to_vec();
    assert!(odd.equals(&changes[0].key));
    assert!(!odd.equals(&changes[1].key));
    let found = gack::git::repo::changes_by_key(&changes, &[odd]);
    assert_eq!(found.len(), 1);
    assert_eq!(found[0].path, b"a/b".to_vec());

    let mut state = AppState::new(RepoSummary {
        root_label: "repo".to_string(),
        branch: "main".to_string(),
        ahead: None,
        behind: None,
    });
    state.changes = changes.clone();
    state.toggle_mark();
    let mut same = changes[0].key.clone();
    same.path = b"./a/b".to_vec();
    assert!(state.is_marked(&changes[0].key));
    assert!(!state.is_marked(&same));
    same.path = b"a/b/".to_vec();
    assert!(state.is_marked(&same));
}

#[test]
fn change_keys_order_paths_by_component() {
    let changes = parse_status(b"? a/b\0? a-b\0? ..\0? -\0").unwrap().changes;
    let key = |i: usize| changes[i].key.clone();
    assert!(key(0).less_than(&key(1)));
    assert!(!key(1).less_than(&key(0)));
    assert!(key(2).less_than(&key(3)));
    assert!(!key(3).less_than(&key(2)));
    assert!(!key(0).less_than(&key(0)));
}
