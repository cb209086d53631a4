use gack::git::diff::{parse_diff, WhitespaceMode};
use gack::git::queries::count_revspecs;
use gack::git::redact::git_args;
use gack::git::repo::{hunk_apply_commands, DiscardStep, GitCli};
use gack::git::status::parse_status;
use gack::git::{ChangeSection, DiffTarget};
use gack::model::PendingOperation;
use gack::operations::{operation_plan, OperationStep};

fn git() -> GitCli {
    GitCli::discover(b"/tmp/repo\n.git\n.git\ntrue\n").unwrap()
}

fn args(list: &[&str]) -> Vec<Vec<u8>> {
    list.iter().map(|a| a.as_bytes().to_vec()).collect()
}

#[test]
fn same_file_staged_and_unstaged_rows_stage_and_unstage_safely() {
    let git = git();
    let snapshot = git
        .snapshot(b"# branch.head main\x001 MM N... 100644 100644 100644 abc def file.txt\0")
        .unwrap();
    assert_eq!(snapshot.changes.len(), 2);
    assert!(snapshot.changes.iter().any(|change| change.section == ChangeSection::Staged));
    let unstaged = snapshot
        .changes
        .iter()
        .find(|change| change.section == ChangeSection::Unstaged)
        .cloned()
        .unwrap();

    let (paths, err) = git.stage_plan(&[unstaged]);
    assert!(err.is_none());
    assert_eq!(paths, vec![b"file.txt".to_vec()]);

    let snapshot = git
        .snapshot(b"# branch.head main\x001 M. N... 100644 100644 100644 abc def file.txt\0")
        .unwrap();
    assert_eq!(snapshot.changes.len(), 1);
    assert_eq!(snapshot.changes[0].section, ChangeSection::Staged);
    assert_eq!(git.unstage_plan(&snapshot.changes), vec![b"file.txt".to_vec()]);
}

#[test]
fn stages_literal_pathspec_special_filenames() {
    let git = git();
    let mut raw = b"# branch.head main\0".to_vec();
    for name in ["*.rs", "[abc].txt", ":(top)", "-dash.txt", "space name.txt"] {
        raw.extend_from_slice(b"? ");
        raw.extend_from_slice(name.as_bytes());
        raw.push(0);
    }
    let snapshot = git.snapshot(&raw).unwrap();
    let names = git.stage_all_visible(&snapshot.changes);
    for name in ["*.rs", "[abc].txt", ":(top)", "-dash.txt", "space name.txt"] {
        assert!(
            names.iter().any(|entry| entry.as_slice() == name.as_bytes()),
            "missing staged path {name}"
        );
    }
}

#[test]
fn stages_non_utf8_filename_without_lossy_round_trip() {
    let git = git();
    let snapshot = git.snapshot(b"# branch.head main\0? bad-\xff-name.txt\0").unwrap();
    let names = git.stage_all_visible(&snapshot.changes);
    assert!(names.iter().any(|entry| entry.as_slice() == b"bad-\xff-name.txt"));
}

#[test]
fn discard_untracked_file_uses_clean() {
    let git = git();
    let snapshot = git.snapshot(b"# branch.head main\0? scratch.txt\0").unwrap();
    let untracked = snapshot
        .changes
        .iter()
        .find(|change| change.section == ChangeSection::Untracked)
        .cloned()
        .unwrap();

    let (steps, err) = git.discard_plan(&[untracked]);
    assert!(err.is_none());
    assert_eq!(steps, vec![DiscardStep::Clean(b"scratch.txt".to_vec())]);
}

#[test]
fn discard_unstaged_change_preserves_staged_index() {
    let git = git();
    let snapshot = git
        .snapshot(b"# branch.head main\x001 MM N... 100644 100644 100644 abc def file.txt\0")
        .unwrap();
    let unstaged = snapshot
        .changes
        .iter()
        .find(|change| change.section == ChangeSection::Unstaged)
        .cloned()
        .unwrap();
    let (steps, err) = git.discard_plan(&[unstaged]);
    assert!(err.is_none());
    assert_eq!(steps, vec![DiscardStep::Restore(b"file.txt".to_vec())]);
}

#[test]
fn switches_to_selected_local_branch() {
    let plan = operation_plan(&PendingOperation::SwitchBranch("feature".to_string())).unwrap();
    assert_eq!(plan.step, OperationStep::Git(args(&["switch", "--", "feature"])));
    assert_eq!(plan.success, "Switched to feature");
    assert!(plan.open_changes);
}

#[test]
fn removes_clean_non_current_worktree() {
    let plan = operation_plan(&PendingOperation::RemoveWorktree(b"/tmp/feature-worktree".to_vec())).unwrap();
    assert_eq!(
        plan.step,
        OperationStep::Git(args(&["worktree", "remove", "--", "/tmp/feature-worktree"]))
    );
    assert_eq!(plan.error_title, "Could not remove worktree");
}

#[test]
fn fetch_plan_offers_a_terminal_retry() {
    let plan = operation_plan(&PendingOperation::FetchRemote("origin".to_string())).unwrap();
    assert_eq!(
        plan.step,
        OperationStep::Git(args(&["fetch", "--porcelain", "--prune", "origin"]))
    );
    let retry = plan.retry.unwrap();
    assert_eq!(retry.args, args(&["fetch", "--prune", "origin"]));
}

fn numbered_lines(changes: &[(usize, &str)]) -> String {
    (1..=20)
        .map(|line| {
            changes
                .iter()
                .find(|(number, _)| *number == line)
                .map(|(_, text)| text.to_string())
                .unwrap_or_else(|| format!("line {line}"))
        })
        .collect::<Vec<_>>()
        .join("\n")
        + "\n"
}

#[test]
fn stages_and_unstages_selected_hunk() {
    let git = git();
    let before = numbered_lines(&[]);
    let after = numbered_lines(&[(2, "line 2 changed"), (18, "line 18 changed")]);
    assert_ne!(before, after);
    let patch = "diff --git a/file.txt b/file.txt\nindex abc..def 100644\n--- a/file.txt\n+++ b/file.txt\n\
@@ -1,5 +1,5 @@\n line 1\n-line 2\n+line 2 changed\n line 3\n line 4\n line 5\n\
@@ -15,6 +15,6 @@\n line 15\n line 16\n line 17\n-line 18\n+line 18 changed\n line 19\n line 20\n";
    let snapshot = git
        .snapshot(b"# branch.head main\x001 .M N... 100644 100644 100644 abc abc file.txt\0")
        .unwrap();
    let change = snapshot
        .changes
        .iter()
        .find(|change| change.section == ChangeSection::Unstaged)
        .unwrap();
    let diff = parse_diff(DiffTarget::Worktree, patch.as_bytes(), 3, WhitespaceMode::Normal);
    assert_eq!(diff.hunks.len(), 2);

    let staged_patch = String::from_utf8(git.stage_hunk(change, &diff, 0).unwrap()).unwrap();
    assert!(staged_patch.contains("line 2 changed"));
    assert!(!staged_patch.contains("line 18 changed"));

    let snapshot = git
        .snapshot(b"# branch.head main\x001 MM N... 100644 100644 100644 abc abc file.txt\0")
        .unwrap();
    let staged = snapshot
        .changes
        .iter()
        .find(|change| change.section == ChangeSection::Staged)
        .unwrap();
    let staged_diff = parse_diff(DiffTarget::Staged, patch.as_bytes(), 3, WhitespaceMode::Normal);
    let unstage_patch = String::from_utf8(git.unstage_hunk(staged, &staged_diff, 0).unwrap()).unwrap();
    assert!(unstage_patch.contains("line 2 changed"));
    assert!(!unstage_patch.contains("line 18 changed"));

    assert!(git.unstage_hunk(change, &diff, 0).is_err());
}

fn has_force(step: &OperationStep) -> bool {
    match step {
        OperationStep::Git(list) => list
            .iter()
            .any(|arg| arg.as_slice() == b"--force" || arg.as_slice() == b"-f"),
        _ => false,
    }
}

#[test]
fn remote_fetch_update_and_push_use_upstream_safely() {
    let git = git();
    let upstream = git.current_upstream(b"origin/main\n").unwrap();
    assert_eq!(upstream.display, "origin/main");

    let fetch = operation_plan(&PendingOperation::FetchRemote("origin".to_string())).unwrap();
    assert_eq!(
        fetch.step,
        OperationStep::Git(args(&["fetch", "--porcelain", "--prune", "origin"]))
    );
    let update = operation_plan(&PendingOperation::UpdateCurrentBranch).unwrap();
    assert_eq!(update.step, OperationStep::UpdateCurrentBranch);
    assert_eq!(update.retry.unwrap().args, args(&["pull", "--ff-only"]));
    assert!(git.update_current_branch_ff_only(1));

    let (fetch_args, merge) = git.update_commands(&upstream, 1);
    assert_eq!(fetch_args, args(&["fetch", "--porcelain", "--prune", "origin"]));
    assert_eq!(merge, Some(args(&["merge", "--ff-only", "@{u}"])));
    assert_eq!(git.update_commands(&upstream, 0).1, None);

    let push = operation_plan(&PendingOperation::PushCurrentBranch).unwrap();
    assert_eq!(push.step, OperationStep::PushCurrentBranch);
    assert_eq!(push.retry.unwrap().args, args(&["push"]));
    assert_eq!(count_revspecs(), ("@{u}..HEAD", "HEAD..@{u}"));
    let command = git.push_command(&upstream, 1, 0).unwrap().unwrap();
    assert_eq!(command, args(&["push", "--porcelain", "origin", "HEAD:refs/heads/main"]));
    assert!(!command.iter().any(|a| a.as_slice() == b"--force" || a.as_slice() == b"-f"));
    assert_eq!(git.push_command(&upstream, 0, 0).unwrap(), None);
    assert!(!has_force(&fetch.step));
}

#[test]
fn hunk_patches_are_checked_before_they_are_applied() {
    let (check, apply) = hunk_apply_commands(false);
    assert_eq!(check, args(&["apply", "--cached", "--check"]));
    assert_eq!(apply, args(&["apply", "--cached"]));
    let (check, apply) = hunk_apply_commands(true);
    assert_eq!(check, args(&["apply", "--cached", "--check", "--reverse"]));
    assert_eq!(apply, args(&["apply", "--cached", "--reverse"]));
}

#[test]
fn git_runs_in_the_repository_given() {
    let rest = args(&["status", "--porcelain=v2"]);
    let mut expected = args(&["-C", "/tmp/repo"]);
    expected.extend(rest.clone());
    assert_eq!(git_args(Some(b"/tmp/repo"), &rest), expected);
    assert_eq!(git_args(None, &rest), rest);
}

#[test]
fn dirty_worktree_remove_is_rejected_by_git() {
    let plan = operation_plan(&PendingOperation::RemoveWorktree(b"/tmp/feature-worktree".to_vec())).unwrap();
    assert!(!has_force(&plan.step));
    assert_eq!(
        plan.step,
        OperationStep::Git(args(&["worktree", "remove", "--", "/tmp/feature-worktree"]))
    );
}

#[test]
fn submodule_sync_and_stage_pointer_are_local_operations() {
    let git = git();
    let submodules = git.submodule_list(Some(
        b"submodule.vendor/parser.path\nvendor/parser\0submodule.vendor/parser.url\n/tmp/sub\0",
    ));
    assert_eq!(submodules.len(), 1);
    assert_eq!(submodules[0].path, b"vendor/parser".to_vec());

    let sync = operation_plan(&PendingOperation::SyncSubmodule(submodules[0].path.clone())).unwrap();
    assert_eq!(
        sync.step,
        OperationStep::Git(args(&["submodule", "sync", "--", "vendor/parser"]))
    );
    assert!(sync.retry.is_none());
    let stage = operation_plan(&PendingOperation::StageSubmodulePointer(b"vendor/parser".to_vec())).unwrap();
    assert_eq!(stage.step, OperationStep::Git(args(&["add", "--", "vendor/parser"])));
    assert!(stage.retry.is_none());
}
