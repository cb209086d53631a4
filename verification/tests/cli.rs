use gack::cli::{format_repo_discovery_error, indent_block, parse_args, resolve_start_path, shell_arg, PathKind};

#[test]
fn repo_discovery_error_explains_non_repo() {
    let detail = "git -C /tmp/example rev-parse --show-toplevel failed: fatal: not a git repository (or any of the parent directories): .git";
    let message = format_repo_discovery_error("/tmp/example", detail);
    assert!(message.contains("no Git repository found"));
    assert!(message.contains("Looked from:\n  /tmp/example"));
    assert!(message.contains("gack --repo /path/to/repo"));
    assert!(message.contains("git init"));
    assert!(message.contains("Details:\n  git -C /tmp/example"));
}

#[test]
fn repo_discovery_error_explains_missing_git() {
    let message = format_repo_discovery_error("/tmp/example", "No such file or directory (os error 2)");
    assert!(message.contains("could not start Git"));
    assert!(message.contains("git --version"));
}

#[test]
fn dubious_ownership_suggests_safe_directory() {
    let message = format_repo_discovery_error("/tmp/my repo", "fatal: detected DUBIOUS ownership");
    assert!(message.contains("git config --global --add safe.directory '/tmp/my repo'"));
}

#[test]
fn shell_args_are_quoted_only_when_needed() {
    assert_eq!(shell_arg("/tmp/plain-path_1.x:y"), "/tmp/plain-path_1.x:y");
    assert_eq!(shell_arg("it's here"), "'it'\\''s here'");
}

#[test]
fn indent_block_indents_each_line() {
    assert_eq!(indent_block("a\nb"), "  a\n  b");
    assert_eq!(indent_block(""), "");
}

#[test]
fn parses_command_line_options() {
    let args: Vec<String> = ["--repo", "/r", "--config=--config=/c", "--no-config", "-V"]
        .iter()
        .map(|s| s.to_string())
        .collect();
    let parsed = parse_args(&args).unwrap();
    assert_eq!(parsed.repo.as_deref(), Some("/r"));
    assert_eq!(parsed.config.as_deref(), Some("/c"));
    assert!(parsed.no_config);
    assert!(parsed.version);
    assert!(!parsed.help);
    let bad = vec!["--repo".to_string()];
    assert_eq!(parse_args(&bad).unwrap_err(), "--repo requires a path");
    let unknown = vec!["--nope".to_string()];
    assert_eq!(parse_args(&unknown).unwrap_err(), "unknown argument: --nope");
}

#[test]
fn start_path_can_be_a_file_inside_repo() {
    let resolved = resolve_start_path(
        "/tmp/example/README.md",
        &PathKind::File,
        Some("/tmp/example"),
    )
    .unwrap();
    assert_eq!(resolved, "/tmp/example");
}

#[test]
fn missing_start_path_gets_actionable_message() {
    let message = resolve_start_path(
        "/tmp/gack-path-that-should-not-exist",
        &PathKind::Missing,
        Some("/tmp"),
    )
    .unwrap_err();
    assert!(message.contains("repository path does not exist"));
    assert!(message.contains("gack --repo /path/to/repo"));
}

#[test]
fn start_path_directory_and_odd_files() {
    assert_eq!(resolve_start_path("/repo", &PathKind::Directory, Some("/")).unwrap(), "/repo");
    let message = resolve_start_path("README.md", &PathKind::File, Some("")).unwrap_err();
    assert!(message.contains("no parent directory"));
    let message = resolve_start_path("/dev/null", &PathKind::Other, Some("/dev")).unwrap_err();
    assert!(message.starts_with("repository path is not a directory or file"));
    let message =
        resolve_start_path("/secret", &PathKind::Unreadable("Permission denied".to_string()), Some("/")).unwrap_err();
    assert!(message.ends_with("Details:\n  Permission denied"));
}
