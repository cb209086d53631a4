//! The command palette: every command with its key and the words it is
//! found by.
use crate::action::{key_action, Action, Key, KeyCode};
use crate::text::{
    ascii_chars, ascii_upper, chars_contains, chars_of, contains_seq, is_ws, lemma_lower_upper,
    lemma_trim_around, lemma_trim_upper, lower_chars, occurs_at, to_lowercase, trim, trim_end,
    trim_range, trim_start, string_of_range,
};
use vstd::prelude::*;

verus! {

/// A command of the palette.
#[derive(Debug, Clone, Copy, PartialEq, Eq, Structural)]
pub enum CommandId {
    Stage,
    StageAll,
    Unstage,
    StageHunk,
    UnstageHunk,
    Discard,
    Commit,
    Refresh,
    Changes,
    Stash,
    Branches,
    Log,
    Remotes,
    Repos,
    ApplyStash,
    DropStash,
    SwitchBranch,
    FetchRemote,
    UpdateCurrentBranch,
    PushCurrentBranch,
    SyncSubmodule,
    RebaseContinue,
    RebaseAbort,
    RebaseSkip,
    ExternalEditor,
    StartInteractiveRebase,
    Whitespace,
    IncreaseContext,
    DecreaseContext,
    Help,
}

/// A command with its label, its key and the words that find it.
#[derive(Debug)]
pub struct CommandSpec {
    pub id: CommandId,
    pub label: &'static str,
    pub key: &'static str,
    pub keywords: Vec<&'static str>,
    pub action: Action,
}

pub struct CommandSpecView {
    pub id: CommandId,
    pub label: Seq<char>,
    pub key: Seq<char>,
    pub keywords: Seq<Seq<char>>,
    pub action: Action,
}

impl View for CommandSpec {
    type V = CommandSpecView;

    open spec fn view(&self) -> CommandSpecView {
        CommandSpecView {
            id: self.id,
            label: self.label@,
            key: self.key@,
            keywords: self.keywords@.map_values(|w: &str| w@),
            action: self.action,
        }
    }
}

/// The views of a list of commands.
pub open spec fn commands_view(v: Seq<CommandSpec>) -> Seq<CommandSpecView> {
    v.map_values(|c: CommandSpec| c@)
}

/// Every command, in the order the palette lists them.
pub open spec fn catalog() -> Seq<CommandSpecView> {
    seq![
        CommandSpecView {
            id: CommandId::Stage,
            label: "Stage selection"@,
            key: "s"@,
            keywords: seq!["add"@, "index"@],
            action: Action::Stage,
        },
        CommandSpecView {
            id: CommandId::StageAll,
            label: "Stage all visible"@,
            key: "a"@,
            keywords: seq!["add all"@, "index"@],
            action: Action::StageAllVisible,
        },
        CommandSpecView {
            id: CommandId::Unstage,
            label: "Unstage selection"@,
            key: "u"@,
            keywords: seq!["restore staged"@, "reset"@],
            action: Action::Unstage,
        },
        CommandSpecView {
            id: CommandId::StageHunk,
            label: "Stage hunk"@,
            key: "S"@,
            keywords: seq!["patch"@, "partial"@],
            action: Action::StageHunk,
        },
        CommandSpecView {
            id: CommandId::UnstageHunk,
            label: "Unstage hunk"@,
            key: "U"@,
            keywords: seq!["patch"@, "partial"@],
            action: Action::UnstageHunk,
        },
        CommandSpecView {
            id: CommandId::Discard,
            label: "Discard selection"@,
            key: "x"@,
            keywords: seq!["restore"@, "clean"@, "delete"@],
            action: Action::Discard,
        },
        CommandSpecView {
            id: CommandId::Commit,
            label: "Commit staged changes"@,
            key: "c"@,
            keywords: seq!["save"@],
            action: Action::Commit,
        },
        CommandSpecView {
            id: CommandId::Refresh,
            label: "Refresh repository"@,
            key: "r"@,
            keywords: seq!["reload"@, "status"@],
            action: Action::Refresh,
        },
        CommandSpecView {
            id: CommandId::Changes,
            label: "Open Changes panel"@,
            key: "0"@,
            keywords: seq!["files"@, "status"@],
            action: Action::OpenChanges,
        },
        CommandSpecView {
            id: CommandId::Stash,
            label: "Open Stash panel"@,
            key: "z"@,
            keywords: seq!["shelves"@, "wip"@],
            action: Action::OpenStash,
        },
        CommandSpecView {
            id: CommandId::Branches,
            label: "Open Branches panel"@,
            key: "B"@,
            keywords: seq!["refs"@, "switch"@],
            action: Action::OpenBranches,
        },
        CommandSpecView {
            id: CommandId::Log,
            label: "Open Log panel"@,
            key: "L"@,
            keywords: seq!["history"@, "commits"@],
            action: Action::OpenLog,
        },
        CommandSpecView {
            id: CommandId::Remotes,
            label: "Open Remotes panel"@,
            key: "F"@,
            keywords: seq!["fetch"@, "push"@, "origin"@],
            action: Action::OpenRemotes,
        },
        CommandSpecView {
            id: CommandId::Repos,
            label: "Open Repos panel"@,
            key: "R"@,
            keywords: seq!["worktrees"@, "submodules"@, "topology"@],
            action: Action::OpenRepos,
        },
        CommandSpecView {
            id: CommandId::ApplyStash,
            label: "Apply selected stash"@,
            key: "A"@,
            keywords: seq!["stash apply"@],
            action: Action::ApplyStash,
        },
        CommandSpecView {
            id: CommandId::DropStash,
            label: "Drop selected stash"@,
            key: "d"@,
            keywords: seq!["stash drop"@, "delete stash"@],
            action: Action::DropStash,
        },
        CommandSpecView {
            id: CommandId::SwitchBranch,
            label: "Switch to selected branch"@,
            key: "o"@,
            keywords: seq!["checkout"@, "branch switch"@],
            action: Action::SwitchBranch,
        },
        CommandSpecView {
            id: CommandId::FetchRemote,
            label: "Fetch selected remote"@,
            key: "f"@,
            keywords: seq!["remote fetch"@, "prune"@],
            action: Action::FetchRemote,
        },
        CommandSpecView {
            id: CommandId::UpdateCurrentBranch,
            label: "Update current branch ff-only"@,
            key: "U"@,
            keywords: seq!["pull"@, "fast forward"@, "remote update"@],
            action: Action::UpdateCurrentBranch,
        },
        CommandSpecView {
            id: CommandId::PushCurrentBranch,
            label: "Push current branch"@,
            key: "P"@,
            keywords: seq!["remote push"@, "publish commits"@],
            action: Action::PushCurrentBranch,
        },
        CommandSpecView {
            id: CommandId::SyncSubmodule,
            label: "Sync selected submodule"@,
            key: "y"@,
            keywords: seq!["submodule sync"@],
            action: Action::SyncSubmodule,
        },
        CommandSpecView {
            id: CommandId::RebaseContinue,
            label: "Rebase continue"@,
            key: "C"@,
            keywords: seq!["continue rebase"@],
            action: Action::RebaseContinue,
        },
        CommandSpecView {
            id: CommandId::RebaseAbort,
            label: "Rebase abort"@,
            key: "Q"@,
            keywords: seq!["abort rebase"@],
            action: Action::RebaseAbort,
        },
        CommandSpecView {
            id: CommandId::RebaseSkip,
            label: "Rebase skip"@,
            key: "K"@,
            keywords: seq!["skip rebase"@],
            action: Action::RebaseSkip,
        },
        CommandSpecView {
            id: CommandId::ExternalEditor,
            label: "Open external editor"@,
            key: "e / Ctrl+E"@,
            keywords: seq!["editor"@, "edit message"@, "edit conflict"@],
            action: Action::ExternalEditor,
        },
        CommandSpecView {
            id: CommandId::StartInteractiveRebase,
            label: "Start interactive rebase"@,
            key: "I"@,
            keywords: seq!["rebase interactive"@, "rewrite history"@],
            action: Action::StartInteractiveRebase,
        },
        CommandSpecView {
            id: CommandId::Whitespace,
            label: "Cycle diff whitespace"@,
            key: "w"@,
            keywords: seq!["ignore space"@],
            action: Action::ToggleWhitespace,
        },
        CommandSpecView {
            id: CommandId::IncreaseContext,
            label: "Increase diff context"@,
            key: "+"@,
            keywords: seq!["more context"@],
            action: Action::IncreaseContext,
        },
        CommandSpecView {
            id: CommandId::DecreaseContext,
            label: "Decrease diff context"@,
            key: "-"@,
            keywords: seq!["less context"@],
            action: Action::DecreaseContext,
        },
        CommandSpecView {
            id: CommandId::Help,
            label: "Open help"@,
            key: "?"@,
            keywords: seq!["keys"@, "shortcuts"@],
            action: Action::Help,
        },
    ]
}

/// Every command, in the order the palette lists them.
pub fn command_catalog() -> (r: Vec<CommandSpec>)
    ensures
        commands_view(r@) == catalog(),
{
    let r = vec![
        CommandSpec {
            id: CommandId::Stage,
            label: "Stage selection",
            key: "s",
            keywords: vec!["add", "index"],
            action: Action::Stage,
        },
        CommandSpec {
            id: CommandId::StageAll,
            label: "Stage all visible",
            key: "a",
            keywords: vec!["add all", "index"],
            action: Action::StageAllVisible,
        },
        CommandSpec {
            id: CommandId::Unstage,
            label: "Unstage selection",
            key: "u",
            keywords: vec!["restore staged", "reset"],
            action: Action::Unstage,
        },
        CommandSpec {
            id: CommandId::StageHunk,
            label: "Stage hunk",
            key: "S",
            keywords: vec!["patch", "partial"],
            action: Action::StageHunk,
        },
        CommandSpec {
            id: CommandId::UnstageHunk,
            label: "Unstage hunk",
            key: "U",
            keywords: vec!["patch", "partial"],
            action: Action::UnstageHunk,
        },
        CommandSpec {
            id: CommandId::Discard,
            label: "Discard selection",
            key: "x",
            keywords: vec!["restore", "clean", "delete"],
            action: Action::Discard,
        },
        CommandSpec {
            id: CommandId::Commit,
            label: "Commit staged changes",
            key: "c",
            keywords: vec!["save"],
            action: Action::Commit,
        },
        CommandSpec {
            id: CommandId::Refresh,
            label: "Refresh repository",
            key: "r",
            keywords: vec!["reload", "status"],
            action: Action::Refresh,
        },
        CommandSpec {
            id: CommandId::Changes,
            label: "Open Changes panel",
            key: "0",
            keywords: vec!["files", "status"],
            action: Action::OpenChanges,
        },
        CommandSpec {
            id: CommandId::Stash,
            label: "Open Stash panel",
            key: "z",
            keywords: vec!["shelves", "wip"],
            action: Action::OpenStash,
        },
        CommandSpec {
            id: CommandId::Branches,
            label: "Open Branches panel",
            key: "B",
            keywords: vec!["refs", "switch"],
            action: Action::OpenBranches,
        },
        CommandSpec {
            id: CommandId::Log,
            label: "Open Log panel",
            key: "L",
            keywords: vec!["history", "commits"],
            action: Action::OpenLog,
        },
        CommandSpec {
            id: CommandId::Remotes,
            label: "Open Remotes panel",
            key: "F",
            keywords: vec!["fetch", "push", "origin"],
            action: Action::OpenRemotes,
        },
        CommandSpec {
            id: CommandId::Repos,
            label: "Open Repos panel",
            key: "R",
            keywords: vec!["worktrees", "submodules", "topology"],
            action: Action::OpenRepos,
        },
        CommandSpec {
            id: CommandId::ApplyStash,
            label: "Apply selected stash",
            key: "A",
            keywords: vec!["stash apply"],
            action: Action::ApplyStash,
        },
        CommandSpec {
            id: CommandId::DropStash,
            label: "Drop selected stash",
            key: "d",
            keywords: vec!["stash drop", "delete stash"],
            action: Action::DropStash,
        },
        CommandSpec {
            id: CommandId::SwitchBranch,
            label: "Switch to selected branch",
            key: "o",
            keywords: vec!["checkout", "branch switch"],
            action: Action::SwitchBranch,
        },
        CommandSpec {
            id: CommandId::FetchRemote,
            label: "Fetch selected remote",
            key: "f",
            keywords: vec!["remote fetch", "prune"],
            action: Action::FetchRemote,
        },
        CommandSpec {
            id: CommandId::UpdateCurrentBranch,
            label: "Update current branch ff-only",
            key: "U",
            keywords: vec!["pull", "fast forward", "remote update"],
            action: Action::UpdateCurrentBranch,
        },
        CommandSpec {
            id: CommandId::PushCurrentBranch,
            label: "Push current branch",
            key: "P",
            keywords: vec!["remote push", "publish commits"],
            action: Action::PushCurrentBranch,
        },
        CommandSpec {
            id: CommandId::SyncSubmodule,
            label: "Sync selected submodule",
            key: "y",
            keywords: vec!["submodule sync"],
            action: Action::SyncSubmodule,
        },
        CommandSpec {
            id: CommandId::RebaseContinue,
            label: "Rebase continue",
            key: "C",
            keywords: vec!["continue rebase"],
            action: Action::RebaseContinue,
        },
        CommandSpec {
            id: CommandId::RebaseAbort,
            label: "Rebase abort",
            key: "Q",
            keywords: vec!["abort rebase"],
            action: Action::RebaseAbort,
        },
        CommandSpec {
            id: CommandId::RebaseSkip,
            label: "Rebase skip",
            key: "K",
            keywords: vec!["skip rebase"],
            action: Action::RebaseSkip,
        },
        CommandSpec {
            id: CommandId::ExternalEditor,
            label: "Open external editor",
            key: "e / Ctrl+E",
            keywords: vec!["editor", "edit message", "edit conflict"],
            action: Action::ExternalEditor,
        },
        CommandSpec {
            id: CommandId::StartInteractiveRebase,
            label: "Start interactive rebase",
            key: "I",
            keywords: vec!["rebase interactive", "rewrite history"],
            action: Action::StartInteractiveRebase,
        },
        CommandSpec {
            id: CommandId::Whitespace,
            label: "Cycle diff whitespace",
            key: "w",
            keywords: vec!["ignore space"],
            action: Action::ToggleWhitespace,
        },
        CommandSpec {
            id: CommandId::IncreaseContext,
            label: "Increase diff context",
            key: "+",
            keywords: vec!["more context"],
            action: Action::IncreaseContext,
        },
        CommandSpec {
            id: CommandId::DecreaseContext,
            label: "Decrease diff context",
            key: "-",
            keywords: vec!["less context"],
            action: Action::DecreaseContext,
        },
        CommandSpec {
            id: CommandId::Help,
            label: "Open help",
            key: "?",
            keywords: vec!["keys", "shortcuts"],
            action: Action::Help,
        },
    ];
    proof {
        assert(r@[0]@.keywords =~= seq!["add"@, "index"@]);
        assert(r@[1]@.keywords =~= seq!["add all"@, "index"@]);
        assert(r@[2]@.keywords =~= seq!["restore staged"@, "reset"@]);
        assert(r@[3]@.keywords =~= seq!["patch"@, "partial"@]);
        assert(r@[4]@.keywords =~= seq!["patch"@, "partial"@]);
        assert(r@[5]@.keywords =~= seq!["restore"@, "clean"@, "delete"@]);
        assert(r@[6]@.keywords =~= seq!["save"@]);
        assert(r@[7]@.keywords =~= seq!["reload"@, "status"@]);
        assert(r@[8]@.keywords =~= seq!["files"@, "status"@]);
        assert(r@[9]@.keywords =~= seq!["shelves"@, "wip"@]);
        assert(r@[10]@.keywords =~= seq!["refs"@, "switch"@]);
        assert(r@[11]@.keywords =~= seq!["history"@, "commits"@]);
        assert(r@[12]@.keywords =~= seq!["fetch"@, "push"@, "origin"@]);
        assert(r@[13]@.keywords =~= seq!["worktrees"@, "submodules"@, "topology"@]);
        assert(r@[14]@.keywords =~= seq!["stash apply"@]);
        assert(r@[15]@.keywords =~= seq!["stash drop"@, "delete stash"@]);
        assert(r@[16]@.keywords =~= seq!["checkout"@, "branch switch"@]);
        assert(r@[17]@.keywords =~= seq!["remote fetch"@, "prune"@]);
        assert(r@[18]@.keywords =~= seq!["pull"@, "fast forward"@, "remote update"@]);
        assert(r@[19]@.keywords =~= seq!["remote push"@, "publish commits"@]);
        assert(r@[20]@.keywords =~= seq!["submodule sync"@]);
        assert(r@[21]@.keywords =~= seq!["continue rebase"@]);
        assert(r@[22]@.keywords =~= seq!["abort rebase"@]);
        assert(r@[23]@.keywords =~= seq!["skip rebase"@]);
        assert(r@[24]@.keywords =~= seq!["editor"@, "edit message"@, "edit conflict"@]);
        assert(r@[25]@.keywords =~= seq!["rebase interactive"@, "rewrite history"@]);
        assert(r@[26]@.keywords =~= seq!["ignore space"@]);
        assert(r@[27]@.keywords =~= seq!["more context"@]);
        assert(r@[28]@.keywords =~= seq!["less context"@]);
        assert(r@[29]@.keywords =~= seq!["keys"@, "shortcuts"@]);
        assert(commands_view(r@) =~= catalog());
    }
    r
}

impl CommandSpec {
    /// A copy of this command.
    pub fn copy(&self) -> (r: CommandSpec)
        ensures
            r@ == self@,
    {
        let keywords = self.keywords.clone();
        proof {
            assert forall|k: int| 0 <= k < keywords.len() implies keywords@[k] == self.keywords@[k] by {
                assert(cloned::<&str>(self.keywords[k], keywords[k]));
            }
            assert(keywords@ =~= self.keywords@);
        }
        CommandSpec { id: self.id, label: self.label, key: self.key, keywords, action: self.action }
    }
}

/// The palette's query as it is compared: trimmed and lower-cased.
pub open spec fn query_text(query: Seq<char>) -> Seq<char> {
    lower_chars(trim(query))
}

/// `q` occurs in the lower-cased label or in a lower-cased keyword of `c`.
pub open spec fn command_matches_spec(c: CommandSpecView, q: Seq<char>) -> bool {
    ||| contains_seq(lower_chars(c.label), q)
    ||| exists|k: int| 0 <= k < c.keywords.len() && contains_seq(lower_chars(#[trigger] c.keywords[k]), q)
}

/// The commands of `cs` that an empty query `q` or a match keeps, in order.
pub open spec fn keep_matching(cs: Seq<CommandSpecView>, q: Seq<char>) -> Seq<CommandSpecView>
    decreases cs.len(),
{
    if cs.len() == 0 {
        Seq::empty()
    } else if q.len() == 0 || command_matches_spec(cs.last(), q) {
        keep_matching(cs.drop_last(), q).push(cs.last())
    } else {
        keep_matching(cs.drop_last(), q)
    }
}

/// The commands the palette lists for `query`.
pub open spec fn matching_spec(query: Seq<char>) -> Seq<CommandSpecView> {
    keep_matching(catalog(), query_text(query))
}

/// Whether `q` (already lower-cased) finds `command`.
pub fn command_matches(command: &CommandSpec, q: &[char]) -> (r: bool)
    ensures
        r == command_matches_spec(command@, q@),
{
    let label = to_lowercase(command.label);
    let l = chars_of(label.as_str());
    if chars_contains(&l, q) {
        return true;
    }
    let mut k: usize = 0;
    while k < command.keywords.len()
        invariant
            k <= command.keywords.len(),
            forall|j: int| 0 <= j < k ==> !contains_seq(lower_chars(#[trigger] command@.keywords[j]), q@),
        decreases command.keywords.len() - k,
    {
        let w = to_lowercase(command.keywords[k]);
        let wc = chars_of(w.as_str());
        if chars_contains(&wc, q) {
            assert(command@.keywords[k as int] == command.keywords@[k as int]@);
            return true;
        }
        k += 1;
    }
    false
}

/// The commands that the palette lists for `query`: all of them for an
/// empty query, else those whose label or a keyword contains it, compared
/// without regard to case; in catalog order.
pub fn matching_commands(query: &str) -> (r: Vec<CommandSpec>)
    ensures
        commands_view(r@) == matching_spec(query@),
{
    let qc = chars_of(query);
    let (a, b) = trim_range(&qc, 0, qc.len());
    assert(qc@.subrange(0, qc@.len() as int) =~= qc@);
    let trimmed = string_of_range(&qc, a, b);
    let lowered = to_lowercase(trimmed.as_str());
    let q = chars_of(lowered.as_str());
    let cat = command_catalog();
    let ghost cv = catalog();
    let mut out: Vec<CommandSpec> = Vec::new();
    let mut i: usize = 0;
    while i < cat.len()
        invariant
            commands_view(cat@) == cv,
            cv == catalog(),
            q@ == query_text(query@),
            i <= cat.len(),
            commands_view(out@) == keep_matching(cv.take(i as int), q@),
        decreases cat.len() - i,
    {
        proof {
            assert(cv.take(i + 1).drop_last() =~= cv.take(i as int));
            assert(cv.take(i + 1).last() == cat@[i as int]@);
        }
        if q.len() == 0 || command_matches(&cat[i], &q) {
            let ghost before = commands_view(out@);
            out.push(cat[i].copy());
            assert(commands_view(out@) =~= before.push(cat@[i as int]@));
        }
        i += 1;
    }
    assert(cv.take(cat.len() as int) =~= cv);
    out
}

/// The first command the palette lists for `query`, if any.
pub fn first_matching_command(query: &str) -> (r: Option<CommandSpec>)
    ensures
        matching_spec(query@).len() == 0 ==> r is None,
        matching_spec(query@).len() > 0 ==> (r matches Some(c) && c@ == matching_spec(query@)[0]),
{
    let all = matching_commands(query);
    if all.len() == 0 {
        None
    } else {
        assert(commands_view(all@)[0] == all@[0]@);
        Some(all[0].copy())
    }
}

proof fn lemma_contains_trans(a: Seq<char>, b: Seq<char>, c: Seq<char>)
    requires
        contains_seq(a, b),
        contains_seq(b, c),
    ensures
        contains_seq(a, c),
{
    let i = choose|i: int| occurs_at(a, b, i);
    let j = choose|j: int| occurs_at(b, c, j);
    assert(a.subrange(i + j, i + j + c.len()) =~= b.subrange(j, j + c.len()));
    assert(occurs_at(a, c, i + j));
}

proof fn lemma_match_narrows(c: CommandSpecView, q1: Seq<char>, q2: Seq<char>)
    requires
        contains_seq(q2, q1),
        command_matches_spec(c, q2),
    ensures
        command_matches_spec(c, q1),
{
    if contains_seq(lower_chars(c.label), q2) {
        lemma_contains_trans(lower_chars(c.label), q2, q1);
    } else {
        let k = choose|k: int| 0 <= k < c.keywords.len() && contains_seq(lower_chars(#[trigger] c.keywords[k]), q2);
        lemma_contains_trans(lower_chars(c.keywords[k]), q2, q1);
    }
}

proof fn lemma_keep_narrows(cs: Seq<CommandSpecView>, q1: Seq<char>, q2: Seq<char>, c: CommandSpecView)
    requires
        contains_seq(q2, q1),
        keep_matching(cs, q2).contains(c),
    ensures
        keep_matching(cs, q1).contains(c),
    decreases cs.len(),
{
    if cs.len() > 0 {
        let last = cs.last();
        let rest2 = keep_matching(cs.drop_last(), q2);
        let rest1 = keep_matching(cs.drop_last(), q1);
        let kept2 = q2.len() == 0 || command_matches_spec(last, q2);
        if q2.len() == 0 {
            let i = choose|i: int| occurs_at(q2, q1, i);
            assert(q1.len() == 0);
        }
        if kept2 && !(q1.len() == 0) {
            if q2.len() != 0 {
                lemma_match_narrows(last, q1, q2);
            }
        }
        let i = choose|i: int| 0 <= i < keep_matching(cs, q2).len() && keep_matching(cs, q2)[i] == c;
        if kept2 && i == rest2.len() {
            assert(c == last);
            assert(keep_matching(cs, q1) == rest1.push(last));
            assert(keep_matching(cs, q1)[rest1.len() as int] == c);
        } else {
            assert(rest2[i] == c);
            assert(rest2.contains(c));
            lemma_keep_narrows(cs.drop_last(), q1, q2, c);
            let j = choose|j: int| 0 <= j < rest1.len() && rest1[j] == c;
            if q1.len() == 0 || command_matches_spec(last, q1) {
                assert(keep_matching(cs, q1)[j] == c);
            } else {
                assert(keep_matching(cs, q1)[j] == c);
            }
        }
    }
}

/// A longer query never lists more: when the trimmed, lower-cased query
/// `q1` occurs in the trimmed, lower-cased query `q2`, every command listed
/// for `q2` is listed for `q1`.
pub proof fn lemma_longer_query_narrows(q1: Seq<char>, q2: Seq<char>, c: CommandSpecView)
    requires
        contains_seq(query_text(q2), query_text(q1)),
    ensures
        matching_spec(q2).contains(c) ==> matching_spec(q1).contains(c),
{
    if matching_spec(q2).contains(c) {
        lemma_keep_narrows(catalog(), query_text(q1), query_text(q2), c);
    }
}

proof fn lemma_trim_ascii(s: Seq<char>)
    requires
        ascii_chars(s),
    ensures
        ascii_chars(trim(s)),
{
    lemma_trim_start_ascii(s);
    lemma_trim_end_ascii(trim_start(s));
}

proof fn lemma_trim_start_ascii(s: Seq<char>)
    requires
        ascii_chars(s),
    ensures
        ascii_chars(trim_start(s)),
    decreases s.len(),
{
    if s.len() > 0 && is_ws(s[0]) {
        assert forall|i: int| 0 <= i < s.drop_first().len() implies (#[trigger] s.drop_first()[i]) <= '\u{7f}' by {
            assert(s.drop_first()[i] == s[i + 1]);
        }
        lemma_trim_start_ascii(s.drop_first());
    }
}

proof fn lemma_trim_end_ascii(s: Seq<char>)
    requires
        ascii_chars(s),
    ensures
        ascii_chars(trim_end(s)),
    decreases s.len(),
{
    if s.len() > 0 && is_ws(s.last()) {
        assert forall|i: int| 0 <= i < s.drop_last().len() implies (#[trigger] s.drop_last()[i]) <= '\u{7f}' by {
            assert(s.drop_last()[i] == s[i]);
        }
        lemma_trim_end_ascii(s.drop_last());
    }
}

/// Neither case nor whitespace around it changes what an ASCII query
/// lists: the query `q` in capitals, with whitespace `w1` before and `w2`
/// after, lists the same commands as `q`.
pub proof fn lemma_query_case_and_space(q: Seq<char>, w1: Seq<char>, w2: Seq<char>)
    requires
        ascii_chars(q),
        forall|j: int| 0 <= j < w1.len() ==> is_ws(#[trigger] w1[j]),
        forall|j: int| 0 <= j < w2.len() ==> is_ws(#[trigger] w2[j]),
    ensures
        matching_spec(w1 + ascii_upper(q) + w2) == matching_spec(q),
{
    lemma_trim_around(w1, ascii_upper(q), w2);
    lemma_trim_upper(q);
    lemma_trim_ascii(q);
    lemma_lower_upper(trim(q));
    assert(query_text(w1 + ascii_upper(q) + w2) == query_text(q));
}

/// Every command of the palette does what its key does in the panels: the
/// first character of its key, pressed without Control, maps to the
/// command's action. The one exception is the branch update, whose `U`
/// means "unstage hunk" outside the Branches and Remotes panels.
pub proof fn lemma_catalog_keys_run_their_actions(i: int)
    requires
        0 <= i < catalog().len(),
        catalog()[i].action != Action::UpdateCurrentBranch,
    ensures
        catalog()[i].key.len() > 0,
        key_action(Key { code: KeyCode::Char(catalog()[i].key[0]), control: false }) == catalog()[i].action,
{
    reveal_strlit("s");
    reveal_strlit("a");
    reveal_strlit("u");
    reveal_strlit("S");
    reveal_strlit("U");
    reveal_strlit("x");
    reveal_strlit("c");
    reveal_strlit("r");
    reveal_strlit("0");
    reveal_strlit("z");
    reveal_strlit("B");
    reveal_strlit("L");
    reveal_strlit("F");
    reveal_strlit("R");
    reveal_strlit("A");
    reveal_strlit("d");
    reveal_strlit("o");
    reveal_strlit("f");
    reveal_strlit("P");
    reveal_strlit("y");
    reveal_strlit("C");
    reveal_strlit("Q");
    reveal_strlit("K");
    reveal_strlit("e / Ctrl+E");
    reveal_strlit("I");
    reveal_strlit("w");
    reveal_strlit("+");
    reveal_strlit("-");
    reveal_strlit("?");
    assert(catalog()[i].key.len() > 0);
}

/// No two commands of the palette share an id or an action: each command
/// is found once and runs something no other command runs.
pub proof fn lemma_catalog_distinct(i: int, j: int)
    requires
        0 <= i < j < catalog().len(),
    ensures
        catalog()[i].id != catalog()[j].id,
        catalog()[i].action != catalog()[j].action,
{
}

} // verus!
