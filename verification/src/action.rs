//! What a key press asks for, in the normal panels and while text is typed.
use vstd::prelude::*;

verus! {

/// A request from the user.
#[derive(Debug, Clone, Copy, PartialEq, Eq, Structural)]
pub enum Action {
    MoveUp,
    MoveDown,
    PageUp,
    PageDown,
    FocusNext,
    FocusChanges,
    FocusDiff,
    ToggleMark,
    ClearMarks,
    Stage,
    Unstage,
    StageHunk,
    UnstageHunk,
    StageAllVisible,
    Discard,
    ToggleWhitespace,
    IncreaseContext,
    DecreaseContext,
    Commit,
    SubmitCommit,
    OpenChanges,
    OpenStash,
    OpenBranches,
    OpenLog,
    OpenRemotes,
    OpenRepos,
    ApplyStash,
    DropStash,
    SwitchBranch,
    FetchRemote,
    UpdateCurrentBranch,
    PushCurrentBranch,
    SyncSubmodule,
    RebaseContinue,
    RebaseAbort,
    RebaseSkip,
    ExternalEditor,
    ChooseOurs,
    ChooseTheirs,
    MarkResolved,
    StartInteractiveRebase,
    Refresh,
    Help,
    Palette,
    Close,
    Quit,
    NextHunk,
    PrevHunk,
    ScrollDiffUp,
    ScrollDiffDown,
    Text(char),
    Backspace,
    Newline,
    NoAction,
}

/// The keys the program distinguishes; any other key is `Other`.
#[derive(Debug, Clone, Copy, PartialEq, Eq, Structural)]
pub enum KeyCode {
    Up,
    Down,
    Left,
    Right,
    PageUp,
    PageDown,
    Tab,
    BackTab,
    Enter,
    Esc,
    Backspace,
    Char(char),
    Other,
}

/// A key press: the key and whether Control was held.
#[derive(Debug, Clone, Copy, PartialEq, Eq, Structural)]
pub struct Key {
    pub code: KeyCode,
    pub control: bool,
}

/// The action of a key press in the panels.
pub open spec fn key_action(key: Key) -> Action {
    if key.control {
        match key.code {
            KeyCode::Char('c') => Action::Quit,
            KeyCode::Char('p') => Action::Palette,
            _ => Action::NoAction,
        }
    } else {
        match key.code {
            KeyCode::Up | KeyCode::Char('k') => Action::MoveUp,
            KeyCode::Down | KeyCode::Char('j') => Action::MoveDown,
            KeyCode::PageUp => Action::PageUp,
            KeyCode::PageDown => Action::PageDown,
            KeyCode::Tab | KeyCode::BackTab => Action::FocusNext,
            KeyCode::Enter => Action::FocusDiff,
            KeyCode::Char(' ') | KeyCode::Char('m') => Action::ToggleMark,
            KeyCode::Char('M') => Action::ClearMarks,
            KeyCode::Char('s') => Action::Stage,
            KeyCode::Char('S') => Action::StageHunk,
            KeyCode::Char('u') => Action::Unstage,
            KeyCode::Char('U') => Action::UnstageHunk,
            KeyCode::Char('a') => Action::StageAllVisible,
            KeyCode::Char('x') => Action::Discard,
            KeyCode::Char('c') => Action::Commit,
            KeyCode::Char('0') => Action::OpenChanges,
            KeyCode::Char('z') => Action::OpenStash,
            KeyCode::Char('B') => Action::OpenBranches,
            KeyCode::Char('L') => Action::OpenLog,
            KeyCode::Char('F') => Action::OpenRemotes,
            KeyCode::Char('R') => Action::OpenRepos,
            KeyCode::Char('A') => Action::ApplyStash,
            KeyCode::Char('d') => Action::DropStash,
            KeyCode::Char('o') => Action::SwitchBranch,
            KeyCode::Char('f') => Action::FetchRemote,
            KeyCode::Char('P') => Action::PushCurrentBranch,
            KeyCode::Char('y') => Action::SyncSubmodule,
            KeyCode::Char('C') => Action::RebaseContinue,
            KeyCode::Char('Q') => Action::RebaseAbort,
            KeyCode::Char('K') => Action::RebaseSkip,
            KeyCode::Char('e') => Action::ExternalEditor,
            KeyCode::Char('1') => Action::ChooseOurs,
            KeyCode::Char('2') => Action::ChooseTheirs,
            KeyCode::Char('I') => Action::StartInteractiveRebase,
            KeyCode::Char('r') => Action::Refresh,
            KeyCode::Char('?') => Action::Help,
            KeyCode::Char(':') => Action::Palette,
            KeyCode::Esc => Action::Close,
            KeyCode::Char('q') => Action::Quit,
            KeyCode::Char('n') | KeyCode::Char(']') => Action::NextHunk,
            KeyCode::Char('p') | KeyCode::Char('[') => Action::PrevHunk,
            KeyCode::Char('w') => Action::ToggleWhitespace,
            KeyCode::Char('+') | KeyCode::Char('=') => Action::IncreaseContext,
            KeyCode::Char('-') => Action::DecreaseContext,
            KeyCode::Char('h') | KeyCode::Left => Action::ScrollDiffUp,
            KeyCode::Char('l') | KeyCode::Right => Action::ScrollDiffDown,
            KeyCode::Backspace => Action::Backspace,
            KeyCode::Char(ch) => Action::Text(ch),
            _ => Action::NoAction,
        }
    }
}

/// Maps a key press in the panels to its action: Control-C quits,
/// Control-P opens the palette, single letters run commands, and any other
/// character is text.
pub fn key_to_action(key: Key) -> (a: Action)
    ensures
        a == key_action(key),
{
    if key.control {
        return match key.code {
            KeyCode::Char('c') => Action::Quit,
            KeyCode::Char('p') => Action::Palette,
            _ => Action::NoAction,
        };
    }
    match key.code {
        KeyCode::Up | KeyCode::Char('k') => Action::MoveUp,
        KeyCode::Down | KeyCode::Char('j') => Action::MoveDown,
        KeyCode::PageUp => Action::PageUp,
        KeyCode::PageDown => Action::PageDown,
        KeyCode::Tab | KeyCode::BackTab => Action::FocusNext,
        KeyCode::Enter => Action::FocusDiff,
        KeyCode::Char(' ') | KeyCode::Char('m') => Action::ToggleMark,
        KeyCode::Char('M') => Action::ClearMarks,
        KeyCode::Char('s') => Action::Stage,
        KeyCode::Char('S') => Action::StageHunk,
        KeyCode::Char('u') => Action::Unstage,
        KeyCode::Char('U') => Action::UnstageHunk,
        KeyCode::Char('a') => Action::StageAllVisible,
        KeyCode::Char('x') => Action::Discard,
        KeyCode::Char('c') => Action::Commit,
        KeyCode::Char('0') => Action::OpenChanges,
        KeyCode::Char('z') => Action::OpenStash,
        KeyCode::Char('B') => Action::OpenBranches,
        KeyCode::Char('L') => Action::OpenLog,
        KeyCode::Char('F') => Action::OpenRemotes,
        KeyCode::Char('R') => Action::OpenRepos,
        KeyCode::Char('A') => Action::ApplyStash,
        KeyCode::Char('d') => Action::DropStash,
        KeyCode::Char('o') => Action::SwitchBranch,
        KeyCode::Char('f') => Action::FetchRemote,
        KeyCode::Char('P') => Action::PushCurrentBranch,
        KeyCode::Char('y') => Action::SyncSubmodule,
        KeyCode::Char('C') => Action::RebaseContinue,
        KeyCode::Char('Q') => Action::RebaseAbort,
        KeyCode::Char('K') => Action::RebaseSkip,
        KeyCode::Char('e') => Action::ExternalEditor,
        KeyCode::Char('1') => Action::ChooseOurs,
        KeyCode::Char('2') => Action::ChooseTheirs,
        KeyCode::Char('I') => Action::StartInteractiveRebase,
        KeyCode::Char('r') => Action::Refresh,
        KeyCode::Char('?') => Action::Help,
        KeyCode::Char(':') => Action::Palette,
        KeyCode::Esc => Action::Close,
        KeyCode::Char('q') => Action::Quit,
        KeyCode::Char('n') | KeyCode::Char(']') => Action::NextHunk,
        KeyCode::Char('p') | KeyCode::Char('[') => Action::PrevHunk,
        KeyCode::Char('w') => Action::ToggleWhitespace,
        KeyCode::Char('+') | KeyCode::Char('=') => Action::IncreaseContext,
        KeyCode::Char('-') => Action::DecreaseContext,
        KeyCode::Char('h') | KeyCode::Left => Action::ScrollDiffUp,
        KeyCode::Char('l') | KeyCode::Right => Action::ScrollDiffDown,
        KeyCode::Backspace => Action::Backspace,
        KeyCode::Char(ch) => Action::Text(ch),
        _ => Action::NoAction,
    }
}

/// The action of a key press while text is typed.
pub open spec fn key_text_action(key: Key) -> Action {
    if key.control {
        match key.code {
            KeyCode::Char('c') => Action::Close,
            KeyCode::Char('e') => Action::ExternalEditor,
            KeyCode::Char('s') => Action::SubmitCommit,
            _ => Action::NoAction,
        }
    } else {
        match key.code {
            KeyCode::Esc => Action::Close,
            KeyCode::Tab | KeyCode::BackTab => Action::FocusNext,
            KeyCode::Enter => Action::Newline,
            KeyCode::Backspace => Action::Backspace,
            KeyCode::Char(ch) => Action::Text(ch),
            _ => Action::NoAction,
        }
    }
}

/// Maps a key press while text is typed: every character is text, so
/// shortcut letters do not fire; Control-S submits, Control-E opens the
/// editor and Control-C or Esc closes.
pub fn key_to_text_action(key: Key) -> (a: Action)
    ensures
        a == key_text_action(key),
{
    if key.control {
        return match key.code {
            KeyCode::Char('c') => Action::Close,
            KeyCode::Char('e') => Action::ExternalEditor,
            KeyCode::Char('s') => Action::SubmitCommit,
            _ => Action::NoAction,
        };
    }
    match key.code {
        KeyCode::Esc => Action::Close,
        KeyCode::Tab | KeyCode::BackTab => Action::FocusNext,
        KeyCode::Enter => Action::Newline,
        KeyCode::Backspace => Action::Backspace,
        KeyCode::Char(ch) => Action::Text(ch),
        _ => Action::NoAction,
    }
}

/// While text is typed, a character without Control is always text.
pub proof fn text_mode_keeps_characters(ch: char)
    ensures
        key_text_action(Key { code: KeyCode::Char(ch), control: false }) == Action::Text(ch),
{
}

/// The keys of the README's key table do what it says: `0` `z` `B` `L` `F`
/// `R` open the panels, `j`/`k` and the arrows move, Tab and Enter focus,
/// Esc closes, Space marks, `s`/`u` stage and unstage the selection,
/// `S`/`U` the hunk, `x` discards, `c` commits, `:` and Control-P open the
/// palette, `?` help and `q` quits.
pub proof fn lemma_key_table()
    ensures
        key_action(Key { code: KeyCode::Char('0'), control: false }) == Action::OpenChanges,
        key_action(Key { code: KeyCode::Char('z'), control: false }) == Action::OpenStash,
        key_action(Key { code: KeyCode::Char('B'), control: false }) == Action::OpenBranches,
        key_action(Key { code: KeyCode::Char('L'), control: false }) == Action::OpenLog,
        key_action(Key { code: KeyCode::Char('F'), control: false }) == Action::OpenRemotes,
        key_action(Key { code: KeyCode::Char('R'), control: false }) == Action::OpenRepos,
        key_action(Key { code: KeyCode::Char('j'), control: false }) == Action::MoveDown,
        key_action(Key { code: KeyCode::Down, control: false }) == Action::MoveDown,
        key_action(Key { code: KeyCode::Char('k'), control: false }) == Action::MoveUp,
        key_action(Key { code: KeyCode::Up, control: false }) == Action::MoveUp,
        key_action(Key { code: KeyCode::Tab, control: false }) == Action::FocusNext,
        key_action(Key { code: KeyCode::Enter, control: false }) == Action::FocusDiff,
        key_action(Key { code: KeyCode::Esc, control: false }) == Action::Close,
        key_action(Key { code: KeyCode::Char(' '), control: false }) == Action::ToggleMark,
        key_action(Key { code: KeyCode::Char('s'), control: false }) == Action::Stage,
        key_action(Key { code: KeyCode::Char('u'), control: false }) == Action::Unstage,
        key_action(Key { code: KeyCode::Char('S'), control: false }) == Action::StageHunk,
        key_action(Key { code: KeyCode::Char('U'), control: false }) == Action::UnstageHunk,
        key_action(Key { code: KeyCode::Char('x'), control: false }) == Action::Discard,
        key_action(Key { code: KeyCode::Char('c'), control: false }) == Action::Commit,
        key_action(Key { code: KeyCode::Char(':'), control: false }) == Action::Palette,
        key_action(Key { code: KeyCode::Char('p'), control: true }) == Action::Palette,
        key_action(Key { code: KeyCode::Char('?'), control: false }) == Action::Help,
        key_action(Key { code: KeyCode::Char('q'), control: false }) == Action::Quit,
{
}

} // verus!
