use gack::git::redact::{command_error_text, redact_git_message};

#[test]
fn redacts_url_userinfo_from_errors() {
    assert_eq!(
        redact_git_message("fatal: https://token@example.com/org/repo.git failed"),
        "fatal: https://<redacted>@example.com/org/repo.git failed"
    );
}

#[test]
fn redacts_query_secret_parameters() {
    assert_eq!(
        redact_git_message("fatal: https://example.com/org/repo.git?access_token=secret&x=1 failed"),
        "fatal: https://example.com/org/repo.git?access_token=<redacted>&x=1 failed"
    );
}

#[test]
fn truncates_extremely_long_error_lines() {
    let long = format!("fatal: {}", "x".repeat(700));
    let redacted = redact_git_message(&long);
    assert!(redacted.ends_with("...<truncated>"));
    assert!(redacted.len() < long.len());
}

#[test]
fn redaction_keeps_lines_apart() {
    assert_eq!(
        redact_git_message("a https://u:p@h/x\nb ?token=t#frag"),
        "a https://<redacted>@h/x\nb ?token=<redacted>#frag"
    );
}

#[test]
fn truncated_line_keeps_five_hundred_characters() {
    let long = "y".repeat(501);
    let redacted = redact_git_message(&long);
    assert_eq!(redacted, format!("{}...<truncated>", "y".repeat(500)));
    let exact = "z".repeat(500);
    assert_eq!(redact_git_message(&exact), exact);
}

#[test]
fn command_error_prefers_stderr_and_redacts() {
    let text = command_error_text("fetch origin", b"  fatal: https://me@host/r  \n", b"out", "exit status: 1");
    assert_eq!(text, "git fetch origin failed: fatal: https://<redacted>@host/r");
    let text = command_error_text("status", b"   ", b" stdout detail ", "exit status: 1");
    assert_eq!(text, "git status failed: stdout detail");
    let text = command_error_text("status", b"", b"", "exit status: 128");
    assert_eq!(text, "git status failed with exit status: 128");
}

#[test]
fn read_only_commands_get_optional_locks() {
    let envs = gack::git::redact::command_env(true);
    assert!(envs
        .iter()
        .any(|(key, value)| *key == "GIT_OPTIONAL_LOCKS" && *value == "0"));
    assert!(envs.iter().any(|(key, value)| *key == "GIT_LITERAL_PATHSPECS" && *value == "1"));
}

#[test]
fn mutating_commands_do_not_get_optional_locks() {
    let envs = gack::git::redact::command_env(false);
    assert!(!envs.iter().any(|(key, _)| *key == "GIT_OPTIONAL_LOCKS"));
    assert!(envs.iter().any(|(key, value)| *key == "GIT_TERMINAL_PROMPT" && *value == "0"));
}
