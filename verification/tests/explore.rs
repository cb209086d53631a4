use gack::git::explore::{
    parse_branch_list, parse_conflict_stages, parse_stash_list, parse_submodule_config,
    parse_worktree_list, redact_url, same_path,
};

#[test]
fn parses_stash_list() {
    let parsed = parse_stash_list(b"stash@{0}\x1fabc123\x1f2 minutes ago\x1fWIP on main\n");
    assert_eq!(parsed.len(), 1);
    assert_eq!(parsed[0].selector, "stash@{0}");
    assert_eq!(parsed[0].subject, "WIP on main");
}

#[test]
fn parses_branch_list() {
    let raw = b"*\x1frefs/heads/main\x1fmain\x1fabc1234\x1forigin/main\x1fInitial\n \x1frefs/remotes/origin/main\x1forigin/main\x1fabc1234\x1f\x1fInitial\n";
    let parsed = parse_branch_list(raw);
    assert_eq!(parsed.len(), 2);
    assert!(parsed[0].current);
    assert!(!parsed[0].remote);
    assert!(parsed[1].remote);
}

#[test]
fn redacts_remote_userinfo() {
    assert_eq!(
        redact_url("https://token@example.com/org/repo.git"),
        "https://<redacted>@example.com/org/repo.git"
    );
}

#[test]
fn parses_worktree_list() {
    let raw = b"worktree /tmp/repo\nHEAD abc123456789\nbranch refs/heads/main\n\nworktree /tmp/other\nHEAD def123456789\ndetached\nlocked reason\n";
    let parsed = parse_worktree_list(raw, b"/tmp/repo");
    assert_eq!(parsed.len(), 2);
    assert_eq!(parsed[0].branch.as_deref(), Some("main"));
    assert!(parsed[1].detached);
    assert_eq!(parsed[1].locked.as_deref(), Some("reason"));
}

#[test]
fn parses_submodule_config() {
    let raw = b"submodule.vendor/parser.path vendor/parser\nsubmodule.vendor/parser.url https://token@example.com/parser.git\n";
    let parsed = parse_submodule_config(raw);
    assert_eq!(parsed.len(), 1);
    assert_eq!(parsed[0].name, "vendor/parser");
    assert_eq!(parsed[0].path, b"vendor/parser".to_vec());
    assert_eq!(
        parsed[0].url.as_deref(),
        Some("https://<redacted>@example.com/parser.git")
    );
}

#[test]
fn parses_conflict_stages() {
    let raw = [
        b"100644 abc123 1\tfile.txt\0".as_slice(),
        b"100644 def456 2\tfile.txt\0".as_slice(),
    ]
    .concat();
    let parsed = parse_conflict_stages(&raw);
    assert_eq!(parsed.len(), 2);
    assert_eq!(parsed[0].stage, 1);
    assert_eq!(parsed[1].oid, "def456");
}

#[test]
fn worktree_at_current_root_is_marked_current() {
    let raw = b"worktree /tmp/repo\nHEAD abc123456789\nbranch refs/heads/main\n\nworktree /tmp/other\nHEAD def123456789\ndetached\n";
    let parsed = parse_worktree_list(raw, b"/tmp/repo");
    assert!(parsed[0].current);
    assert!(!parsed[1].current);
}

#[test]
fn redact_url_leaves_plain_urls_alone() {
    assert_eq!(redact_url("https://example.com/repo.git"), "https://example.com/repo.git");
    assert_eq!(redact_url("git@example.com:repo.git"), "git@example.com:repo.git");
}

#[test]
fn same_path_prefers_canonical_forms() {
    assert!(same_path(b"/tmp/link", b"/real/repo", Some(b"/real/repo"), Some(b"/real/repo")));
    assert!(!same_path(b"/a", b"/a", Some(b"/x"), Some(b"/y")));
    assert!(same_path(b"/a", b"/a", None, Some(b"/y")));
    assert!(!same_path(b"/a", b"/b", Some(b"/a"), None));
}
