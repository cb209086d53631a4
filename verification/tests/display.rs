use gack::display::{
    active_title, branch_details, conflict_stage_row, conflict_title, commit_review_lines, commit_summary_meter, contextual_status,
    detail_text, limited_body_lines, patch_summary, path_label, remote_details, scroll_offset,
    submodule_details, submodule_row, truncate_end, truncate_middle, worktree_details,
    worktree_row, ReviewLine,
};
use gack::git::diff::{Diff, DiffHunk, WhitespaceMode};
use gack::git::explore::{BranchEntry, ConflictStage, RemoteEntry, SubmoduleEntry, WorktreeEntry};
use gack::git::DiffTarget;
use gack::git::status::parse_status;
use gack::model::{AppState, Focus, Panel, RepoSummary};

fn state() -> AppState {
    AppState::new(RepoSummary {
        root_label: "repo".to_string(),
        branch: "main".to_string(),
        ahead: None,
        behind: None,
    })
}

#[test]
fn truncation_keeps_ends_or_start() {
    assert_eq!(truncate_middle("src/module/file.rs", 100), "src/module/file.rs");
    assert_eq!(truncate_middle("abcdefghij", 7), "ab...ij");
    assert_eq!(truncate_middle("abcdefghij", 8), "ab...hij");
    assert_eq!(truncate_middle("abcdefghij", 2), "..");
    assert_eq!(truncate_end("abcdefghij", 5), "abcd>");
    assert_eq!(truncate_end("abc", 5), "abc");
    assert_eq!(truncate_end("abcdef", 1), "");
}

#[test]
fn titles_offsets_and_labels() {
    assert_eq!(active_title("Diff", true), "Diff active");
    assert_eq!(active_title("Diff", false), "Diff");
    assert_eq!(scroll_offset(70_000), u16::MAX);
    assert_eq!(scroll_offset(12), 12);
    assert_eq!(path_label(b"/home/me/project"), "project");
    assert_eq!(path_label(b"/"), "/");
    let (label, value) = detail_text("Branch", "a-very-long-branch-name", 20);
    assert_eq!(label, "Branch     ");
    assert_eq!(value, "a-very->");
}

#[test]
fn status_line_lists_marks_and_keys() {
    let mut s = state();
    let line = contextual_status(&s, 200);
    assert_eq!(
        line,
        " Ready | no marks | Changes | j/k select | Space mark | s stage | u unstage | e edit conflict | 0 Changes | : commands | ? help | q quit "
    );
    s.panel = Panel::Log;
    s.focus = Focus::Diff;
    let line = contextual_status(&s, 40);
    assert!(line.ends_with(" | 0 Changes | : commands | ? help | q quit "));
    assert_eq!(line.chars().count(), 12 + 44);
    assert!(line.starts_with(" Ready | n"));
}

#[test]
fn summary_meter_warns_past_72() {
    assert_eq!(commit_summary_meter("Fix"), ("3/72".to_string(), false));
    let long = "x".repeat(80);
    assert_eq!(
        commit_summary_meter(&long),
        ("Warning: summary is 80 chars; keep it near 72".to_string(), true)
    );
}

#[test]
fn review_lists_staged_changes() {
    let none = commit_review_lines(&Vec::new(), 60);
    assert_eq!(none, vec![ReviewLine::Note("No staged changes".to_string())]);
    let mut raw = b"# branch.head main\0".to_vec();
    for i in 0..6 {
        raw.extend_from_slice(format!("1 A. N... 000000 100644 100644 0000000 abc f{i}.txt\0").as_bytes());
    }
    let snapshot = parse_status(&raw).unwrap();
    let lines = commit_review_lines(&snapshot.changes, 60);
    assert_eq!(lines.len(), 6);
    assert_eq!(lines[0], ReviewLine::Note("Staged review".to_string()));
    assert_eq!(lines[1], ReviewLine::Item("A  ".to_string(), "f0.txt".to_string()));
    assert_eq!(lines[5], ReviewLine::Note("... 2 more staged".to_string()));
}

#[test]
fn long_bodies_are_cut() {
    let (lines, more) = limited_body_lines("a\nb\r\nc\n", 2);
    assert_eq!(lines, vec!["a".to_string(), "b".to_string()]);
    assert!(more);
    let (lines, more) = limited_body_lines("a\nb", 5);
    assert_eq!(lines.len(), 2);
    assert!(!more);
}

#[test]
fn header_and_status_bar() {
    let mut s = state();
    s.repo.ahead = Some(2);
    assert_eq!(
        gack::display::header_title(&s),
        " repo  main +2  S:0 U:0 ?:0 C:0   [Changes] Stash Branches Log Remotes Repos "
    );
    s.modal = gack::model::Modal::Help;
    assert_eq!(gack::display::status_bar(&s, 80), " Esc/q close ");
}

fn worktree() -> WorktreeEntry {
    WorktreeEntry {
        path: b"/home/me/project-feature".to_vec(),
        head: Some("abc1234".to_string()),
        branch: Some("feature/very-long-name".to_string()),
        detached: false,
        bare: false,
        locked: None,
        prunable: Some("gone".to_string()),
        current: true,
    }
}

fn submodule() -> SubmoduleEntry {
    SubmoduleEntry {
        name: "vendor/lib".to_string(),
        path: b"vendor/lib".to_vec(),
        url: None,
        recorded_oid: Some("1111111".to_string()),
        checked_out_oid: None,
        initialized: true,
        dirty: true,
    }
}

fn pair(label: &'static str, value: &str) -> (&'static str, String) {
    (label, value.to_string())
}

#[test]
fn repo_rows_show_marker_path_and_state() {
    let (marker, path, branch) = worktree_row(&worktree(), 80);
    assert_eq!(marker, "* ");
    assert_eq!(path, "project-feature");
    assert_eq!(branch, " feature/ver>");
    let (_, narrow, _) = worktree_row(&worktree(), 10);
    assert_eq!(narrow, "pr...ure");

    let mut detached = worktree();
    detached.branch = None;
    detached.detached = true;
    detached.current = false;
    let (marker, _, branch) = worktree_row(&detached, 80);
    assert_eq!(marker, "  ");
    assert_eq!(branch, " detached");

    let (path, state) = submodule_row(&submodule(), 80);
    assert_eq!(path, "vendor/lib");
    assert_eq!(state, " dirty");
    let mut fresh = submodule();
    fresh.initialized = false;
    assert_eq!(submodule_row(&fresh, 80).1, " uninit");
    fresh.initialized = true;
    fresh.dirty = false;
    assert_eq!(submodule_row(&fresh, 80).1, " clean");
}

#[test]
fn inspector_details_fill_defaults() {
    let details = worktree_details(&worktree());
    let labels: Vec<&str> = details.iter().map(|(label, _)| *label).collect();
    assert_eq!(
        labels,
        vec!["type", "current", "branch", "head", "detached", "bare", "locked", "prunable"]
    );
    assert_eq!(details[0], pair("type", "worktree"));
    assert_eq!(details[1], pair("current", "yes"));
    assert_eq!(details[2], pair("branch", "feature/very-long-name"));
    assert_eq!(details[4], pair("detached", "no"));
    assert_eq!(details[6], pair("locked", "no"));
    assert_eq!(details[7], pair("prunable", "gone"));

    let details = submodule_details(&submodule());
    assert_eq!(details[0], pair("type", "submodule"));
    assert_eq!(details[1], pair("name", "vendor/lib"));
    assert_eq!(details[2], pair("url", "none"));
    assert_eq!(details[3], pair("initialized", "yes"));
    assert_eq!(details[4], pair("dirty", "yes"));
    assert_eq!(details[5], pair("recorded", "1111111"));
    assert_eq!(details[6], pair("checkout", "unknown"));

    let branch = BranchEntry {
        full_ref: "refs/remotes/origin/main".to_string(),
        name: "origin/main".to_string(),
        short_oid: "deadbee".to_string(),
        upstream: None,
        subject: "Initial".to_string(),
        current: false,
        remote: true,
    };
    assert_eq!(
        branch_details(&branch),
        vec![
            pair("kind", "remote"),
            pair("current", "no"),
            pair("head", "deadbee"),
            pair("upstream", "none"),
            pair("full ref", "refs/remotes/origin/main"),
            pair("refs", "none"),
        ]
    );

    let remote = RemoteEntry {
        name: "origin".to_string(),
        fetch_url: Some("git@example.com:me/repo.git".to_string()),
        push_url: None,
    };
    assert_eq!(
        remote_details(&remote),
        vec![
            pair("fetch", "git@example.com:me/repo.git"),
            pair("push", "none"),
        ]
    );
}

#[test]
fn patch_summary_names_target_hunk_and_settings() {
    let diff = Diff {
        target: DiffTarget::Staged,
        context_lines: 3,
        whitespace: WhitespaceMode::IgnoreAllSpace,
        lines: Vec::new(),
        hunks: vec![
            DiffHunk {
                start_line: 2,
                header: "@@ -1,2 +1,3 @@ fn main()".to_string(),
                raw_start: 0,
                raw_end: 10,
            },
            DiffHunk {
                start_line: 9,
                header: "@@ -10 +11 @@".to_string(),
                raw_start: 10,
                raw_end: 20,
            },
        ],
        is_binary: false,
        additions: 4,
        deletions: 1,
        raw_patch: Vec::new(),
    };
    let (kind, hunk, counts, settings, header) = patch_summary(&diff, 0, 60);
    assert_eq!(kind, "staged  ");
    assert_eq!(hunk, "hunk 1/2  ");
    assert_eq!(counts, "+4 -1  ");
    assert_eq!(settings, "ctx:3 ws:all-space  ");
    assert_eq!(header, "@@ -1,2 +1,3 @@ f>");
    assert_eq!(patch_summary(&diff, 5, 60).4, "");

    let binary = Diff {
        target: DiffTarget::Worktree,
        hunks: Vec::new(),
        is_binary: true,
        ..diff
    };
    let (kind, hunk, _, _, _) = patch_summary(&binary, 0, 60);
    assert_eq!(kind, "unstaged binary  ");
    assert_eq!(hunk, "no hunks  ");
}

#[test]
fn conflict_rows_name_stages() {
    let stage = |n: u8| ConflictStage {
        mode: "100644".to_string(),
        oid: "0123456789abcdef".to_string(),
        stage: n,
        path: b"file.rs".to_vec(),
    };
    assert_eq!(
        conflict_stage_row(&stage(1)),
        ("base    ".to_string(), "0123456789a>".to_string(), " 100644".to_string())
    );
    assert_eq!(conflict_stage_row(&stage(2)).0, "ours    ");
    assert_eq!(conflict_stage_row(&stage(3)).0, "theirs  ");
    assert_eq!(conflict_stage_row(&stage(0)).0, "stage   ");

    assert_eq!(conflict_title(None), "Conflict");
    let changes = parse_status(b"u UU N... 100644 100644 100644 100644 a b c src/file.rs\0")
        .unwrap()
        .changes;
    assert_eq!(conflict_title(changes.first()), "Conflict src/file.rs");
}
