use gack::action::Action;
use gack::git::diff::{parse_diff, WhitespaceMode};
use gack::git::explore::parse_branch_list;
use gack::git::repo::{commit_precheck, untracked_patch, GitCli};
use gack::git::status::parse_status;
use gack::git::{Change, DiffTarget, StatusSnapshot};
use gack::model::{
    AppState, Focus, Modal, Panel, PendingDiscard, RefreshPayload, RepoSummary, TerminalHandoffAfter,
};
use gack::operations::{discard_verdict, DiscardNext, DiscardVerdict};
use gack::session::{effect_outcome, Effect, StatusNote};

fn summary() -> RepoSummary {
    RepoSummary {
        root_label: "repo".to_string(),
        branch: "main".to_string(),
        ahead: None,
        behind: None,
    }
}

fn untracked(names: &[&str]) -> StatusSnapshot {
    let mut raw = b"# branch.oid (initial)\0# branch.head main\0".to_vec();
    for name in names {
        raw.extend_from_slice(b"? ");
        raw.extend_from_slice(name.as_bytes());
        raw.push(0);
    }
    parse_status(&raw).unwrap()
}

fn state_with(changes: Vec<Change>) -> AppState {
    let mut state = AppState::new(summary());
    state.changes = changes;
    state
}

fn git() -> GitCli {
    GitCli::discover(b"/tmp/repo\n.git\n.git\ntrue\n").unwrap()
}

#[test]
fn focused_panel_changes_navigation_behavior() {
    let snapshot = untracked(&["a.txt", "b.txt"]);
    let mut state = state_with(snapshot.changes);
    let patch = untracked_patch(b"a.txt", b"one\ntwo\nthree\n");
    state.diff = Some(parse_diff(DiffTarget::Worktree, &patch, 3, WhitespaceMode::Normal));

    assert_eq!(state.selected, 0);
    assert_eq!(state.handle(Action::MoveDown), Effect::Reload(None));
    assert_eq!(state.selected, 1);
    let patch = untracked_patch(b"b.txt", b"alpha\nbeta\ngamma\n");
    state.diff = Some(parse_diff(DiffTarget::Worktree, &patch, 3, WhitespaceMode::Normal));

    state.handle(Action::FocusDiff);
    state.handle(Action::MoveDown);

    assert_eq!(state.selected, 1);
    assert!(state.diff_scroll > 0);

    state.handle(Action::Close);
    state.handle(Action::MoveUp);
    assert_eq!(state.selected, 0);
}

#[test]
fn non_diff_inspectors_scroll_when_focused() {
    let mut state = state_with(Vec::new());
    assert_eq!(state.handle(Action::OpenBranches), Effect::OpenPanel(Panel::Branches));
    state.branches = parse_branch_list(b"*\x1frefs/heads/main\x1fmain\x1fabc1234\x1f\x1finitial\n");
    let selected = state.selected_branch;

    state.handle(Action::FocusDiff);
    state.handle(Action::MoveDown);

    assert_eq!(state.selected_branch, selected);
    assert!(state.inspector_scroll > 0);
}

#[test]
fn visual_rail_row_selection_skips_section_headers() {
    let snapshot = untracked(&["a.txt", "b.txt"]);
    let mut state = state_with(snapshot.changes);

    state.select_rail_visual_row(0);
    assert_eq!(state.selected, 0);
    state.select_rail_visual_row(2);
    assert_eq!(state.selected, 1);

    state.handle(Action::OpenBranches);
    state.branches = parse_branch_list(b"*\x1frefs/heads/main\x1fmain\x1fabc1234\x1f\x1finitial\n");
    state.select_rail_visual_row(0);
    assert_eq!(state.selected_branch, 0);
}

#[test]
fn visible_rail_row_selection_accounts_for_scrolled_lists() {
    let names: Vec<String> = (0..20).map(|index| format!("file-{index:02}.txt")).collect();
    let refs: Vec<&str> = names.iter().map(|name| name.as_str()).collect();
    let snapshot = untracked(&refs);
    let mut state = state_with(snapshot.changes);
    state.selected = 15;

    state.select_rail_visible_row(0, 5);

    assert!(
        state.selected >= 11,
        "clicked visible row should map into the scrolled viewport, got {}",
        state.selected
    );
}

#[test]
fn palette_does_not_run_disabled_command() {
    let mut state = state_with(Vec::new());

    state.handle(Action::Palette);
    for ch in "commit".chars() {
        state.handle(Action::Text(ch));
    }
    assert_eq!(state.handle(Action::SubmitCommit), Effect::Done);

    assert_eq!(state.modal, Modal::Closed);
    assert!(state.status_message.contains("disabled"));
    assert!(state.status_message.contains("stage changes first"));
}

#[test]
fn failed_commit_handoff_keeps_commit_modal_and_removes_draft() {
    let raw = b"# branch.oid (initial)\0# branch.head main\x001 A. N... 000000 100644 100644 0000000 abc file.txt\0";
    let snapshot = parse_status(raw).unwrap();
    let mut state = state_with(snapshot.changes);
    state.handle(Action::Commit);
    assert_eq!(state.modal, Modal::Commit);
    for ch in "Try commit".chars() {
        state.handle(Action::Text(ch));
    }
    assert_eq!(state.handle(Action::SubmitCommit), Effect::SubmitCommit);

    state.start_commit(b"/tmp/repo", b"/tmp/repo/.git/COMMIT_EDITMSG.draft");
    let handoff = state.pending_handoff.take().expect("commit handoff queued");
    let TerminalHandoffAfter::Commit(draft) = handoff.after.clone() else {
        panic!("expected commit completion");
    };
    assert_eq!(draft, b"/tmp/repo/.git/COMMIT_EDITMSG.draft".to_vec());

    assert!(!state.commit_finished(false, "exit status: 1"));

    assert_eq!(state.modal, Modal::Commit);
    assert!(state.status_message.contains("Could not commit"));
}

#[test]
fn refresh_preserves_selection_and_marks_by_stable_key() {
    let git = git();
    let snapshot = git.snapshot(b"# branch.head main\0? a.txt\0? b.txt\0").unwrap();
    let mut state = state_with(snapshot.changes.clone());
    state.handle(Action::ToggleMark);
    let marked = state.selected_change().unwrap().key.clone();

    let selected_key = state.selected_change_key();
    let selected_index = state.selected;
    let payload = RefreshPayload {
        snapshot,
        stashes: None,
        branches: None,
        log: None,
        remotes: None,
        worktrees: None,
        submodules: None,
        rebase_state: None,
        current_upstream: None,
    };
    state.apply_refresh_payload(&git, payload, selected_key.as_ref(), selected_index, "manual refresh");

    assert!(state.marked.contains(&marked));
    assert_eq!(state.selected_change().unwrap().key, marked);
    assert_eq!(state.status_message, "manual refresh");
}

#[test]
fn diff_controls_reload_selected_diff() {
    let raw = b"# branch.head main\x001 .M N... 100644 100644 100644 abc abc a.txt\0";
    let snapshot = parse_status(raw).unwrap();
    let mut state = state_with(snapshot.changes);
    let patch = b"diff --git a/a.txt b/a.txt\n--- a/a.txt\n+++ b/a.txt\n@@ -1,3 +1,3 @@\n one\n-two\n+TWO\n three\n";
    state.diff = Some(parse_diff(DiffTarget::Worktree, patch, state.diff_context, state.whitespace_mode));

    assert_eq!(state.diff.as_ref().unwrap().context_lines, 3);
    assert_eq!(state.handle(Action::IncreaseContext), Effect::Reload(Some(StatusNote::Context)));
    assert_eq!(state.diff_context, 4);
    state.diff = Some(parse_diff(DiffTarget::Worktree, patch, state.diff_context, state.whitespace_mode));
    state.show_note(StatusNote::Context);
    assert_eq!(state.diff.as_ref().unwrap().context_lines, 4);
    assert_eq!(state.status_message, "Diff context: 4");

    assert_eq!(state.handle(Action::ToggleWhitespace), Effect::Reload(Some(StatusNote::Whitespace)));
    assert_eq!(state.whitespace_mode, WhitespaceMode::IgnoreSpaceChange);
    state.diff = Some(parse_diff(DiffTarget::Worktree, patch, state.diff_context, state.whitespace_mode));
    assert_eq!(
        state.diff.as_ref().unwrap().whitespace,
        WhitespaceMode::IgnoreSpaceChange
    );
}

#[test]
fn focus_moves_between_rail_and_inspector() {
    let mut state = state_with(untracked(&["a.txt"]).changes);
    assert_eq!(state.focus, Focus::Changes);
    state.handle(Action::FocusDiff);
    assert_eq!(state.focus, Focus::Diff);
    state.handle(Action::FocusChanges);
    assert_eq!(state.focus, Focus::Changes);
}

#[test]
fn refresh_keeps_panels_that_could_not_be_read() {
    let git = git();
    let mut state = state_with(Vec::new());
    state.branches = parse_branch_list(b"*\x1frefs/heads/main\x1fmain\x1fabc1234\x1f\x1finitial\n");
    state.selected_branch = 3;
    let snapshot = git.snapshot(b"# branch.head main\0? a.txt\0").unwrap();
    let payload = RefreshPayload {
        snapshot,
        stashes: Some(Vec::new()),
        branches: None,
        log: None,
        remotes: None,
        worktrees: None,
        submodules: None,
        rebase_state: None,
        current_upstream: None,
    };
    state.apply_refresh_payload(&git, payload, None, 7, "");
    assert_eq!(state.branches.len(), 1);
    assert_eq!(state.selected_branch, 0);
    assert_eq!(state.changes.len(), 1);
    assert_eq!(state.selected, 0);
    assert_eq!(state.status_message, "Ready");
    assert_eq!(state.repo.root_label, "repo");
}

#[test]
fn marking_twice_leaves_marks_as_they_were() {
    let snapshot = untracked(&["a.txt", "b.txt", "c.txt"]);
    let mut state = state_with(snapshot.changes);
    state.selected = 2;
    state.handle(Action::ToggleMark);
    state.selected = 0;
    let before = state.marked.clone();
    state.handle(Action::ToggleMark);
    assert_eq!(state.marked.len(), 2);
    state.handle(Action::ToggleMark);
    assert_eq!(state.marked, before);
}

#[test]
fn effects_report_their_outcome() {
    assert_eq!(
        effect_outcome(Effect::StageSelection),
        Some(("Staged selected changes", "Could not stage changes"))
    );
    assert_eq!(
        effect_outcome(Effect::RebaseContinue),
        Some(("Continued rebase", "Could not continue rebase"))
    );
    assert_eq!(effect_outcome(Effect::Refresh), None);
}

#[test]
fn stale_discards_are_dropped() {
    let snapshot = untracked(&["a.txt"]);
    let key = snapshot.changes[0].key.clone();
    let targets = vec![PendingDiscard { key, fingerprint: 7 }];
    assert_eq!(discard_verdict(&targets, 1, &[Some(7)]), DiscardVerdict::Proceed);
    assert_eq!(discard_verdict(&targets, 1, &[Some(8)]), DiscardVerdict::Stale);
    assert_eq!(discard_verdict(&targets, 1, &[None]), DiscardVerdict::Stale);
    assert_eq!(discard_verdict(&targets, 0, &[None]), DiscardVerdict::Nothing);
}

fn staged_file_state() -> AppState {
    let raw = b"# branch.oid (initial)\0# branch.head main\x001 A. N... 000000 100644 100644 0000000 abc file.txt\0";
    state_with(parse_status(raw).unwrap().changes)
}

#[test]
fn commit_editor_handoff_loads_draft_without_committing() {
    let mut state = staged_file_state();
    state.handle(Action::Commit);
    assert_eq!(state.modal, Modal::Commit);

    state.load_commit_draft(true, "exit 0", Ok("Use external editor\n\nDetailed body.\n".to_string()));

    assert_eq!(state.modal, Modal::Commit);
    assert_eq!(state.commit_summary, "Use external editor");
    assert_eq!(state.commit_body, "Detailed body.");
    assert_eq!(state.staged_count(), 1);
    assert_eq!(state.status_message, "Loaded commit draft from external editor");
}

#[test]
fn failed_commit_editor_handoff_removes_draft() {
    let mut state = staged_file_state();
    state.handle(Action::Commit);
    state.load_commit_draft(false, "exit 1", Ok("will be removed\n".to_string()));
    assert_eq!(state.modal, Modal::Commit);
    assert_eq!(state.status_message, "Editor did not update commit draft: exit 1");
    assert_eq!(state.commit_summary, "");
}

#[test]
fn commit_submit_uses_terminal_handoff_and_refreshes_after_success() {
    let mut state = staged_file_state();
    state.handle(Action::Commit);
    for ch in "Use handoff".chars() {
        state.handle(Action::Text(ch));
    }
    assert_eq!(state.handle(Action::SubmitCommit), Effect::SubmitCommit);
    let text = gack::editor::commit_message_file(&state.commit_summary, &state.commit_body, state.staged_count()).unwrap();
    assert_eq!(text, "Use handoff\n");

    state.start_commit(b"/tmp/repo", b"/tmp/gack-commit.txt");
    let handoff = state.pending_handoff.take().expect("commit handoff queued");
    assert_eq!(handoff.label, "git commit");
    assert!(handoff.args.iter().any(|arg| arg == b"commit"));
    assert!(handoff.args.iter().any(|arg| arg == b"--file"));
    assert_eq!(handoff.command, b"git".to_vec());

    assert!(state.commit_finished(true, "exit status: 0"));
    assert_eq!(state.modal, Modal::Closed);
    let message = gack::operations::committed_message("abc1234");
    assert!(message.starts_with("Committed "));
}

#[test]
fn stale_discard_confirmation_does_not_remove_newer_work() {
    let raw = b"# branch.head main\x001 .M N... 100644 100644 100644 abc abc file.txt\0";
    let mut state = state_with(parse_status(raw).unwrap().changes);
    assert_eq!(state.handle(Action::Discard), Effect::OpenDiscardConfirmation);
    let changes = state.selected_or_marked_changes();
    state.confirm_discard(&changes, &vec![11]);
    assert_eq!(state.modal, Modal::Confirm);
    assert_eq!(state.handle(Action::SubmitCommit), Effect::RunPendingOperation);
    let Some(gack::model::PendingOperation::Discard(targets)) = state.pending_operation.clone() else {
        panic!("expected a pending discard");
    };
    assert_eq!(discard_verdict(&targets, 1, &[Some(12)]), DiscardVerdict::Stale);
    let next = state.settle_discard(&targets, 1, &[Some(12)]);
    let DiscardNext::Refresh(message) = next else {
        panic!("expected the discard to be dropped");
    };
    assert!(message.contains("Discard canceled"));
    assert_eq!(state.modal, Modal::Closed);
    assert!(state.pending_operation.is_none());
    assert!(state.pending_discard.is_empty());
    assert!(gack::operations::stale_discard_message().contains("Discard canceled"));
}

#[test]
fn stash_apply_and_drop_are_guarded_git_operations() {
    let mut state = state_with(Vec::new());
    state.handle(Action::OpenStash);
    state.stashes = gack::git::explore::parse_stash_list(b"stash@{0}\x1fabc123\x1f2 minutes ago\x1fOn main: apply me\n");
    state.handle(Action::ApplyStash);
    assert_eq!(state.modal, Modal::Confirm);
    assert_eq!(state.confirm_title, "Apply stash@{0}?");
    let plan = gack::operations::operation_plan(state.pending_operation.as_ref().unwrap()).unwrap();
    assert_eq!(
        plan.step,
        gack::operations::OperationStep::Git(vec![b"stash".to_vec(), b"apply".to_vec(), b"stash@{0}".to_vec()])
    );
    state.handle(Action::Close);
    assert_eq!(state.modal, Modal::Closed);
    assert_eq!(state.status_message, "Operation canceled");
    state.handle(Action::DropStash);
    let plan = gack::operations::operation_plan(state.pending_operation.as_ref().unwrap()).unwrap();
    assert_eq!(
        plan.step,
        gack::operations::OperationStep::Git(vec![b"stash".to_vec(), b"drop".to_vec(), b"stash@{0}".to_vec()])
    );
}

#[test]
fn conflict_helper_can_choose_ours_and_mark_resolved() {
    let raw = b"# branch.head main\0u UU N... 100644 100644 100644 100644 abc def 012 file.txt\0";
    let mut state = state_with(parse_status(raw).unwrap().changes);
    assert!(state.selected_change_is_conflict());
    state.handle(Action::ChooseOurs);
    assert_eq!(state.modal, Modal::Confirm);
    let plan = gack::operations::operation_plan(state.pending_operation.as_ref().unwrap()).unwrap();
    assert_eq!(
        plan.step,
        gack::operations::OperationStep::Git(vec![
            b"checkout".to_vec(),
            b"--ours".to_vec(),
            b"--".to_vec(),
            b"file.txt".to_vec()
        ])
    );
    state.handle(Action::Close);
    state.handle(Action::MarkResolved);
    let plan = gack::operations::operation_plan(state.pending_operation.as_ref().unwrap()).unwrap();
    assert_eq!(
        plan.step,
        gack::operations::OperationStep::Git(vec![b"add".to_vec(), b"--".to_vec(), b"file.txt".to_vec()])
    );
}

#[test]
fn divergent_remote_update_is_rejected() {
    let git = git();
    let upstream = git.current_upstream(b"origin/main\n").unwrap();
    // Diverged: one local commit the upstream lacks, one upstream commit HEAD lacks.
    let refused = git.push_command(&upstream, 1, 1).unwrap_err();
    assert_eq!(
        refused.to_string(),
        "refusing to push: origin/main is 1 commit(s) ahead of HEAD; update first"
    );
    // The update only fast-forwards, so Git refuses to merge diverged histories.
    let (_, merge) = git.update_commands(&upstream, 1);
    let merge = merge.unwrap();
    assert_eq!(merge, vec![b"merge".to_vec(), b"--ff-only".to_vec(), b"@{u}".to_vec()]);
    assert_eq!(git.push_command(&upstream, 0, 0).unwrap(), None);
}

#[test]
fn discovers_from_subdirectory_and_reads_status() {
    let git = GitCli::discover(b"/tmp/work\n/tmp/work/.git\n/tmp/work/.git\ntrue\n").unwrap();
    assert!(git.common_git_dir().starts_with(b"/"));
    let snapshot = git
        .snapshot(b"# branch.head main\x001 .M N... 100644 100644 100644 abc abc src/lib.rs\0")
        .unwrap();
    assert_eq!(snapshot.branch, "main");
    assert_eq!(snapshot.changes.len(), 1);
    assert_eq!(snapshot.changes[0].section, gack::git::ChangeSection::Unstaged);
    assert!(snapshot.changes[0].key.repo_id.is_some());
}

#[test]
fn commits_with_temp_message_file_and_returns_head_hash() {
    let git = git();
    let snapshot = git
        .snapshot(b"# branch.oid (initial)\0# branch.head main\0? file.txt\0")
        .unwrap();
    assert_eq!(git.stage_all_visible(&snapshot.changes), vec![b"file.txt".to_vec()]);
    assert!(commit_precheck(&snapshot.changes).is_err());

    let staged = git
        .snapshot(b"# branch.oid (initial)\0# branch.head main\x001 A. N... 000000 100644 100644 0000000 abc file.txt\0")
        .unwrap();
    assert!(commit_precheck(&staged.changes).is_ok());

    let hash = git.rev_short(b"1a2b3c4\n");
    assert!(!hash.is_empty());
    assert_eq!(hash, "1a2b3c4");
    let snapshot = git
        .snapshot(b"# branch.oid 1a2b3c4d5e6f\0# branch.head main\0")
        .unwrap();
    assert!(snapshot.changes.is_empty());
}

#[test]
fn explorer_read_models_load_stash_branch_log_remote_and_worktree_data() {
    let git = git();

    let stashes = git.stash_list(b"stash@{0}\x1fabc1234\x1f3 seconds ago\x1fOn main: panel stash\n");
    assert_eq!(stashes.len(), 1);
    assert!(stashes[0].subject.contains("panel stash"));
    let patch = git.stash_patch(
        b"diff --git a/file.txt b/file.txt\n--- a/file.txt\n+++ b/file.txt\n@@ -1 +1 @@\n-one\n+two\n",
    );
    assert!(patch.additions > 0);

    let branches = git.branch_list(
        b"*\x1frefs/heads/main\x1fmain\x1fabc1234\x1f\x1finitial\n \x1frefs/heads/feature\x1ffeature\x1fabc1234\x1f\x1finitial\n",
    );
    assert!(branches.iter().any(|branch| branch.name == "main"));
    assert!(branches.iter().any(|branch| branch.name == "feature"));

    let log = git
        .log_list(Ok(b"abc1234567890\x1fabc1234\x1fMe\x1f2024-01-01T00:00:00+00:00\x1fHEAD -> main\x1finitial\n".to_vec()))
        .unwrap();
    assert_eq!(log.len(), 1);
    assert_eq!(log[0].subject, "initial");
    let commit = git.commit_patch(
        b"commit abc1234567890\n\ndiff --git a/file.txt b/file.txt\nnew file mode 100644\n--- /dev/null\n+++ b/file.txt\n@@ -0,0 +1 @@\n+one\n",
    );
    assert!(!commit.lines.is_empty());

    let names = git.remote_names(b"origin\n");
    let remotes = git.remote_list(&names, &[b"/tmp/bare.git\n".to_vec()], &[b"/tmp/bare.git\n".to_vec()]);
    assert_eq!(remotes.len(), 1);
    assert_eq!(remotes[0].name, "origin");

    let worktrees = git.worktree_list(
        b"worktree /tmp/repo\0HEAD abc1234567890\0branch refs/heads/main\0\0worktree /tmp/feature-worktree\0HEAD abc1234567890\0branch refs/heads/feature\0\0",
    );
    assert!(worktrees.iter().any(|entry| entry.current));
    assert!(worktrees
        .iter()
        .any(|entry| entry.branch.as_deref() == Some("feature")));
}

#[test]
fn background_refresh_applies_snapshot_without_blocking_call_site() {
    let git = git();
    let mut state = state_with(Vec::new());
    let snapshot = git.snapshot(b"# branch.head main\0? a.txt\0").unwrap();
    let payload = RefreshPayload {
        snapshot,
        stashes: None,
        branches: None,
        log: None,
        remotes: None,
        worktrees: None,
        submodules: None,
        rebase_state: None,
        current_upstream: None,
    };
    state.apply_refresh_payload(&git, payload, None, 0, "background done");
    assert_eq!(state.status_message, "background done");
    assert_eq!(state.changes.len(), 1);
}

#[test]
fn refused_keys_say_why() {
    let mut state = state_with(Vec::new());
    state.handle(Action::Stage);
    assert_eq!(state.status_message, "No change selected");
    state.handle(Action::StageHunk);
    assert_eq!(state.status_message, "No change selected");

    let raw = b"# branch.head main\x001 M. N... 100644 100644 100644 abc abc a.txt\0";
    let mut state = state_with(parse_status(raw).unwrap().changes);
    state.handle(Action::Discard);
    assert_eq!(
        state.status_message,
        "Cannot discard a.txt from Staged; unstage first if needed"
    );
    state.handle(Action::StageHunk);
    assert_eq!(state.status_message, "No diff loaded");

    state.handle(Action::OpenLog);
    state.handle(Action::Stage);
    assert_eq!(state.status_message, "Open Changes to stage files");
    state.handle(Action::Discard);
    assert_eq!(state.status_message, "Open Changes to discard files");
    state.handle(Action::ToggleMark);
    assert_eq!(state.status_message, "Marks apply to the Changes panel");
}

#[test]
fn a_current_discard_goes_ahead_and_an_empty_one_closes() {
    let raw = b"# branch.head main\x001 .M N... 100644 100644 100644 abc abc file.txt\0";
    let mut state = state_with(parse_status(raw).unwrap().changes);
    state.handle(Action::Discard);
    let changes = state.selected_or_marked_changes();
    state.confirm_discard(&changes, &vec![11]);
    let Some(gack::model::PendingOperation::Discard(targets)) = state.pending_operation.clone() else {
        panic!("expected a pending discard");
    };
    assert_eq!(state.settle_discard(&targets, 1, &[Some(11)]), DiscardNext::Discard);
    assert_eq!(state.modal, Modal::Confirm);
    assert_eq!(state.settle_discard(&targets, 0, &[None]), DiscardNext::Done);
    assert_eq!(state.status_message, "Nothing to discard");
    assert_eq!(state.modal, Modal::Closed);
}
