use gack::editor::{
    commit_message_draft, commit_message_file, move_index, split_command_words,
    split_commit_message,
};

#[test]
fn splits_simple_editor_commands_without_shelling_out() {
    let (command, args) = split_command_words("code --wait").unwrap();
    assert_eq!(command, "code");
    assert_eq!(args, vec!["--wait".to_string()]);
}

#[test]
fn splits_quoted_editor_commands_without_shelling_out() {
    let (command, args) = split_command_words(
        r#""/Applications/Visual Studio Code.app/Contents/Resources/app/bin/code" --wait"#,
    )
    .unwrap();
    assert_eq!(
        command,
        "/Applications/Visual Studio Code.app/Contents/Resources/app/bin/code"
    );
    assert_eq!(args, vec!["--wait".to_string()]);
}

#[test]
fn splits_commit_message_from_editor_file() {
    let (summary, body) = split_commit_message("Update branch panel\n\nAdd detail rows.\n");
    assert_eq!(summary, "Update branch panel");
    assert_eq!(body, "Add detail rows.");
}

#[test]
fn unterminated_quotes_and_empty_commands_are_refused() {
    assert!(split_command_words("vim 'unclosed").is_none());
    assert!(split_command_words("   ").is_none());
    let (command, args) = split_command_words(r"my\ editor -x\").unwrap();
    assert_eq!(command, "my editor");
    assert_eq!(args, vec!["-x\\".to_string()]);
}

#[test]
fn commit_message_round_trip() {
    let draft = commit_message_draft("Summary", "Body line");
    assert_eq!(draft, "Summary\n\nBody line\n");
    let (summary, body) = split_commit_message(&draft);
    assert_eq!(summary, "Summary");
    assert_eq!(body, "Body line");
    assert_eq!(commit_message_draft("Only", ""), "Only\n");
}

#[test]
fn commit_file_checks_summary_and_staging() {
    assert_eq!(commit_message_file("  ", "b", 1), Err("Commit summary cannot be empty".to_string()));
    assert_eq!(commit_message_file("s", "b", 0), Err("Stage at least one change before committing".to_string()));
    assert_eq!(commit_message_file(" s ", " b \n", 2), Ok("s\n\nb\n".to_string()));
    assert_eq!(commit_message_file("s", "  ", 2), Ok("s\n".to_string()));
}

#[test]
fn move_index_stays_in_range() {
    assert_eq!(move_index(0, 0, 5), 0);
    assert_eq!(move_index(2, 5, 10), 4);
    assert_eq!(move_index(2, 5, -10), 0);
    assert_eq!(move_index(2, 5, 1), 3);
}

#[test]
fn draft_reads_back_as_written() {
    let draft = gack::editor::commit_message_draft("Fix parser", "Handle empty input.\nAdd tests.");
    assert_eq!(draft, "Fix parser\n\nHandle empty input.\nAdd tests.\n");
    let (summary, body) = split_commit_message(&draft);
    assert_eq!(summary, "Fix parser");
    assert_eq!(body, "Handle empty input.\nAdd tests.");
    let (summary, body) = split_commit_message(&gack::editor::commit_message_draft("Only summary", ""));
    assert_eq!(summary, "Only summary");
    assert_eq!(body, "");
}

#[test]
fn editor_setting_falls_back_to_vi() {
    let (command, args) = gack::editor::editor_command(&[None, Some("\"unterminated".to_string()), Some("nano -w".to_string())]);
    assert_eq!(command, "nano");
    assert_eq!(args, vec!["-w".to_string()]);
    let (command, args) = gack::editor::editor_command(&[None, None, None]);
    assert_eq!(command, "vi");
    assert!(args.is_empty());
}
