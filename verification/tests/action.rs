use gack::action::{key_to_action, key_to_text_action, Action, Key, KeyCode};

fn key(code: KeyCode, control: bool) -> Key {
    Key { code, control }
}

#[test]
fn normal_mode_maps_uppercase_hunk_commands() {
    assert_eq!(key_to_action(key(KeyCode::Char('S'), false)), Action::StageHunk);
    assert_eq!(key_to_action(key(KeyCode::Char('U'), false)), Action::UnstageHunk);
}

#[test]
fn text_mode_keeps_shortcut_letters_as_text() {
    assert_eq!(key_to_text_action(key(KeyCode::Char('s'), false)), Action::Text('s'));
    assert_eq!(key_to_text_action(key(KeyCode::Char('S'), false)), Action::Text('S'));
    assert_eq!(key_to_text_action(key(KeyCode::Char('q'), false)), Action::Text('q'));
}

#[test]
fn ctrl_s_submits_commit_in_text_mode() {
    assert_eq!(key_to_text_action(key(KeyCode::Char('s'), true)), Action::SubmitCommit);
}

#[test]
fn plain_enter_still_adds_commit_body_newline() {
    assert_eq!(key_to_text_action(key(KeyCode::Enter, false)), Action::Newline);
    assert_eq!(key_to_text_action(key(KeyCode::Enter, true)), Action::NoAction);
}

#[test]
fn control_keys_in_normal_mode() {
    assert_eq!(key_to_action(key(KeyCode::Char('c'), true)), Action::Quit);
    assert_eq!(key_to_action(key(KeyCode::Char('p'), true)), Action::Palette);
    assert_eq!(key_to_action(key(KeyCode::Char('x'), true)), Action::NoAction);
    assert_eq!(key_to_action(key(KeyCode::Char('%'), false)), Action::Text('%'));
    assert_eq!(key_to_action(key(KeyCode::Other, false)), Action::NoAction);
}
