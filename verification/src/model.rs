//! The state the user interface shows: panels, focus, dialogs, pending
//! operations and the repository summary.
use crate::git::diff::{Diff, WhitespaceMode};
use crate::git::explore::{
    BranchEntry, ConflictDetail, LogEntry, RebaseState, RemoteEntry, StashEntry, SubmoduleEntry,
    UpstreamBranch, WorktreeEntry,
};
use crate::git::order::{key_lt, lemma_key_order};
use crate::git::repo::{summary_view, GitCli};
use crate::git::{Change, ChangeKey, ChangeKeyView, ChangeSection, StatusSnapshot};
use crate::text::copy_str;
use vstd::prelude::*;

verus! {

/// Which pane receives navigation keys.
#[derive(Debug, Clone, Copy, PartialEq, Eq, Structural)]
pub enum Focus {
    Changes,
    Diff,
}

/// The panels of the left rail.
#[derive(Debug, Clone, Copy, PartialEq, Eq, Structural)]
pub enum Panel {
    Changes,
    Stash,
    Branches,
    Log,
    Remotes,
    Repos,
}

impl Panel {
    pub open spec fn spec_label(self) -> Seq<char> {
        match self {
            Panel::Changes => "Changes"@,
            Panel::Stash => "Stash"@,
            Panel::Branches => "Branches"@,
            Panel::Log => "Log"@,
            Panel::Remotes => "Remotes"@,
            Panel::Repos => "Repos"@,
        }
    }

    /// The panel's title.
    pub fn label(self) -> (s: &'static str)
        ensures
            s@ == self.spec_label(),
    {
        match self {
            Panel::Changes => "Changes",
            Panel::Stash => "Stash",
            Panel::Branches => "Branches",
            Panel::Log => "Log",
            Panel::Remotes => "Remotes",
            Panel::Repos => "Repos",
        }
    }
}

/// The dialog on top of the panels, if any.
#[derive(Debug, Clone, Copy, PartialEq, Eq, Structural)]
pub enum Modal {
    Closed,
    Help,
    Commit,
    Palette,
    Confirm,
    Error,
}

/// An operation that waits for the user's confirmation.
#[derive(Debug, Clone, PartialEq, Eq)]
pub enum PendingOperation {
    Discard(Vec<PendingDiscard>),
    ApplyStash(String),
    DropStash(String),
    SwitchBranch(String),
    FetchRemote(String),
    UpdateCurrentBranch,
    PushCurrentBranch,
    RemoveWorktree(Vec<u8>),
    SyncSubmodule(Vec<u8>),
    UpdateSubmodule(Vec<u8>),
    StageSubmodulePointer(Vec<u8>),
    RebaseAbort,
    RebaseSkip,
    CheckoutOurs(Vec<u8>),
    CheckoutTheirs(Vec<u8>),
    MarkResolved(Vec<u8>),
    StartInteractiveRebase(String),
}

/// A change confirmed for discarding, with the fingerprint of its content
/// at the time the confirmation was asked.
#[derive(Debug, Clone, PartialEq, Eq)]
pub struct PendingDiscard {
    pub key: ChangeKey,
    pub fingerprint: u64,
}

/// What to do once an external program handed the terminal back.
#[derive(Debug, Clone, PartialEq, Eq)]
pub enum TerminalHandoffAfter {
    Refresh(String),
    LoadCommitMessage(Vec<u8>),
    Commit(Vec<u8>),
}

/// The repository line of the header.
#[derive(Debug, Clone)]
pub struct RepoSummary {
    pub root_label: String,
    pub branch: String,
    pub ahead: Option<u32>,
    pub behind: Option<u32>,
}

pub struct RepoSummaryView {
    pub root_label: Seq<char>,
    pub branch: Seq<char>,
    pub ahead: Option<u32>,
    pub behind: Option<u32>,
}

impl View for RepoSummary {
    type V = RepoSummaryView;

    open spec fn view(&self) -> RepoSummaryView {
        RepoSummaryView {
            root_label: self.root_label@,
            branch: self.branch@,
            ahead: self.ahead,
            behind: self.behind,
        }
    }
}

/// `index` moved into `0..len`, or 0 for an empty list.
pub open spec fn spec_clamp_index(index: int, len: int) -> int {
    if len == 0 {
        0
    } else if index < len - 1 {
        index
    } else {
        len - 1
    }
}

pub fn clamp_index(index: usize, len: usize) -> (r: usize)
    ensures
        r == spec_clamp_index(index as int, len as int),
        len == 0 ==> r == 0,
        len > 0 ==> r < len,
{
    if len == 0 {
        0
    } else if index < len - 1 {
        index
    } else {
        len - 1
    }
}

/// A program to run in the terminal, after which the interface resumes.
#[derive(Debug, Clone, PartialEq, Eq)]
pub struct TerminalHandoff {
    pub cwd: Vec<u8>,
    pub command: Vec<u8>,
    pub args: Vec<Vec<u8>>,
    pub label: String,
    pub after: TerminalHandoffAfter,
}

// ---------------------------------------------------------------------------
// Marked changes
// ---------------------------------------------------------------------------

/// The keys are in strictly increasing order, so none occurs twice.
pub open spec fn sorted_keys(s: Seq<ChangeKey>) -> bool {
    forall|i: int, j: int| 0 <= i < j < s.len() ==> key_lt(#[trigger] s[i]@, #[trigger] s[j]@)
}

/// `k` is one of the keys of `s`.
pub open spec fn has_key(s: Seq<ChangeKey>, k: ChangeKeyView) -> bool {
    exists|i: int| 0 <= i < s.len() && (#[trigger] s[i])@ == k
}

/// The position at which `key` belongs in the sorted keys `keys`, and
/// whether it is already there.
fn key_position(keys: &Vec<ChangeKey>, key: &ChangeKey) -> (r: (usize, bool))
    requires
        sorted_keys(keys@),
    ensures
        r.0 <= keys.len(),
        forall|j: int| 0 <= j < r.0 ==> key_lt(#[trigger] keys@[j]@, key@),
        r.1 == (r.0 < keys.len() && keys@[r.0 as int]@ == key@),
        !r.1 ==> forall|j: int| r.0 <= j < keys.len() ==> key_lt(key@, #[trigger] keys@[j]@),
        r.1 <==> has_key(keys@, key@),
{
    let mut i: usize = 0;
    while i < keys.len() && keys[i].less_than(key)
        invariant
            i <= keys.len(),
            forall|j: int| 0 <= j < i ==> key_lt(#[trigger] keys@[j]@, key@),
        decreases keys.len() - i,
    {
        i += 1;
    }
    let found = i < keys.len() && keys[i].equals(key);
    proof {
        if i < keys.len() && !found {
            lemma_key_order(keys@[i as int]@, key@, key@);
            assert forall|j: int| i <= j < keys.len() implies key_lt(key@, #[trigger] keys@[j]@) by {
                if j > i {
                    assert(key_lt(keys@[i as int]@, keys@[j]@));
                    lemma_key_order(key@, keys@[i as int]@, keys@[j]@);
                }
            }
        }
        if has_key(keys@, key@) && !found {
            let w = choose|w: int| 0 <= w < keys.len() && (#[trigger] keys@[w])@ == key@;
            lemma_key_order(key@, key@, key@);
            if w < i {
                assert(key_lt(keys@[w]@, key@));
            } else {
                assert(key_lt(key@, keys@[w]@));
            }
        }
    }
    (i, found)
}

/// `after` is the sorted key list `before` with `key` added, or removed
/// where it was there.
pub open spec fn toggled(before: Seq<ChangeKey>, after: Seq<ChangeKey>, key: ChangeKeyView) -> bool {
    &&& sorted_keys(after)
    &&& forall|k: ChangeKeyView|
        #![trigger has_key(after, k)]
        has_key(after, k) == (if k == key {
            !has_key(before, k)
        } else {
            has_key(before, k)
        })
}

/// Two sorted key lists that hold the same keys are the same list.
pub proof fn lemma_sorted_keys_unique(a: Seq<ChangeKey>, b: Seq<ChangeKey>)
    requires
        sorted_keys(a),
        sorted_keys(b),
        forall|k: ChangeKeyView| #![trigger has_key(a, k), has_key(b, k)] has_key(a, k) == has_key(b, k),
    ensures
        keys_view(a) == keys_view(b),
    decreases a.len() + b.len(),
{
    if a.len() == 0 || b.len() == 0 {
        if a.len() > 0 {
            assert(has_key(a, a[0]@));
            assert(has_key(b, a[0]@));
        }
        if b.len() > 0 {
            assert(has_key(b, b[0]@));
            assert(has_key(a, b[0]@));
        }
        assert(keys_view(a) =~= keys_view(b));
        return;
    }
    assert(has_key(a, a[0]@) && has_key(b, b[0]@));
    assert(has_key(b, a[0]@) && has_key(a, b[0]@));
    let j = choose|j: int| 0 <= j < b.len() && (#[trigger] b[j])@ == a[0]@;
    let i = choose|i: int| 0 <= i < a.len() && (#[trigger] a[i])@ == b[0]@;
    lemma_key_order(a[0]@, b[0]@, a[0]@);
    if i > 0 {
        assert(key_lt(a[0]@, a[i]@));
        if j > 0 {
            assert(key_lt(b[0]@, b[j]@));
        }
    }
    assert(a[0]@ == b[0]@);
    let ta = a.drop_first();
    let tb = b.drop_first();
    assert forall|k: ChangeKeyView| #![trigger has_key(ta, k), has_key(tb, k)] has_key(ta, k) == has_key(tb, k) by {
        if has_key(ta, k) {
            let w = choose|w: int| 0 <= w < ta.len() && (#[trigger] ta[w])@ == k;
            assert(a[w + 1]@ == k);
            assert(key_lt(a[0]@, a[w + 1]@));
            lemma_key_order(a[0]@, a[0]@, a[0]@);
            assert(has_key(a, k));
            assert(has_key(b, k));
            let v = choose|v: int| 0 <= v < b.len() && (#[trigger] b[v])@ == k;
            assert(v != 0);
            assert(tb[v - 1]@ == k);
        }
        if has_key(tb, k) {
            let w = choose|w: int| 0 <= w < tb.len() && (#[trigger] tb[w])@ == k;
            assert(b[w + 1]@ == k);
            assert(key_lt(b[0]@, b[w + 1]@));
            lemma_key_order(b[0]@, b[0]@, b[0]@);
            assert(has_key(b, k));
            assert(has_key(a, k));
            let v = choose|v: int| 0 <= v < a.len() && (#[trigger] a[v])@ == k;
            assert(v != 0);
            assert(ta[v - 1]@ == k);
        }
    }
    lemma_sorted_keys_unique(ta, tb);
    assert(keys_view(a) =~= seq![a[0]@] + keys_view(ta));
    assert(keys_view(b) =~= seq![b[0]@] + keys_view(tb));
}

/// Marking a change and then unmarking it (or the reverse) leaves the marks
/// as they were.
pub proof fn lemma_toggle_twice(
    before: Seq<ChangeKey>,
    between: Seq<ChangeKey>,
    after: Seq<ChangeKey>,
    key: ChangeKeyView,
)
    requires
        sorted_keys(before),
        toggled(before, between, key),
        toggled(between, after, key),
    ensures
        keys_view(after) == keys_view(before),
{
    assert forall|k: ChangeKeyView| #![trigger has_key(after, k), has_key(before, k)] has_key(after, k) == has_key(
        before,
        k,
    ) by {
        assert(has_key(after, k) == (if k == key {
            !has_key(between, k)
        } else {
            has_key(between, k)
        }));
        assert(has_key(between, k) == (if k == key {
            !has_key(before, k)
        } else {
            has_key(before, k)
        }));
    }
    lemma_sorted_keys_unique(after, before);
}

/// Adds `key` to the sorted keys, or removes it when it is there.
pub fn toggle_key(keys: &mut Vec<ChangeKey>, key: &ChangeKey)
    requires
        sorted_keys(old(keys)@),
    ensures
        toggled(old(keys)@, final(keys)@, key@),
{
    let (i, found) = key_position(keys, key);
    let ghost before = keys@;
    if found {
        keys.remove(i);
        proof {
            assert forall|k: ChangeKeyView| #![trigger has_key(keys@, k)]
                has_key(keys@, k) == (if k == key@ { !has_key(before, k) } else { has_key(before, k) }) by {
                if has_key(keys@, k) {
                    let w = choose|w: int| 0 <= w < keys@.len() && (#[trigger] keys@[w])@ == k;
                    if w < i {
                        assert(before[w] == keys@[w]);
                        assert(key_lt(before[w]@, key@));
                        lemma_key_order(key@, key@, key@);
                    } else {
                        assert(before[w + 1] == keys@[w]);
                        assert(key_lt(before[i as int]@, before[w + 1]@));
                        lemma_key_order(key@, key@, key@);
                    }
                }
                if k != key@ && has_key(before, k) {
                    let w = choose|w: int| 0 <= w < before.len() && (#[trigger] before[w])@ == k;
                    if w < i {
                        assert(keys@[w] == before[w]);
                    } else if w > i {
                        assert(keys@[w - 1] == before[w]);
                    }
                }
            }
        }
    } else {
        keys.insert(i, key.copy());
        proof {
            assert forall|a: int, b: int| 0 <= a < b < keys@.len() implies key_lt(#[trigger] keys@[a]@, #[trigger] keys@[b]@) by {
                if b < i {
                    assert(keys@[a] == before[a] && keys@[b] == before[b]);
                } else if b == i {
                    assert(keys@[a] == before[a]);
                } else if a == i {
                    assert(keys@[b] == before[b - 1]);
                } else if a < i {
                    assert(keys@[a] == before[a] && keys@[b] == before[b - 1]);
                    lemma_key_order(before[a]@, key@, before[b - 1]@);
                } else {
                    assert(keys@[a] == before[a - 1] && keys@[b] == before[b - 1]);
                }
            }
            assert forall|k: ChangeKeyView| #![trigger has_key(keys@, k)]
                has_key(keys@, k) == (if k == key@ { !has_key(before, k) } else { has_key(before, k) }) by {
                if k == key@ {
                    assert(keys@[i as int]@ == key@);
                }
                if has_key(keys@, k) && k != key@ {
                    let w = choose|w: int| 0 <= w < keys@.len() && (#[trigger] keys@[w])@ == k;
                    if w < i {
                        assert(before[w] == keys@[w]);
                    } else if w > i {
                        assert(before[w - 1] == keys@[w]);
                    }
                }
                if has_key(before, k) && k != key@ {
                    let w = choose|w: int| 0 <= w < before.len() && (#[trigger] before[w])@ == k;
                    if w < i {
                        assert(keys@[w] == before[w]);
                    } else {
                        assert(keys@[w + 1] == before[w]);
                    }
                }
            }
        }
    }
}

// ---------------------------------------------------------------------------
// The state of the interface
// ---------------------------------------------------------------------------

/// Everything the interface shows and remembers between key presses.
#[derive(Debug)]
pub struct AppState {
    pub repo: RepoSummary,
    pub panel: Panel,
    pub changes: Vec<Change>,
    pub selected: usize,
    /// The marked changes' keys, in increasing order.
    pub marked: Vec<ChangeKey>,
    pub diff: Option<Diff>,
    pub diff_context: u8,
    pub whitespace_mode: WhitespaceMode,
    pub diff_scroll: usize,
    pub inspector_scroll: usize,
    pub diff_hunk: usize,
    pub focus: Focus,
    pub modal: Modal,
    pub commit_summary: String,
    pub commit_body: String,
    pub commit_body_focus: bool,
    pub palette_query: String,
    pub stashes: Vec<StashEntry>,
    pub selected_stash: usize,
    pub stash_patch: Option<Diff>,
    pub branches: Vec<BranchEntry>,
    pub selected_branch: usize,
    pub log: Vec<LogEntry>,
    pub selected_log: usize,
    pub log_patch: Option<Diff>,
    pub remotes: Vec<RemoteEntry>,
    pub selected_remote: usize,
    pub worktrees: Vec<WorktreeEntry>,
    pub selected_worktree: usize,
    pub submodules: Vec<SubmoduleEntry>,
    pub selected_submodule: usize,
    pub selected_repo: usize,
    pub conflict_detail: Option<ConflictDetail>,
    pub rebase_state: Option<RebaseState>,
    pub current_upstream: Option<UpstreamBranch>,
    pub pending_handoff: Option<TerminalHandoff>,
    pub retry_handoff: Option<TerminalHandoff>,
    pub confirm_title: String,
    pub confirm_body: String,
    pub pending_discard: Vec<ChangeKey>,
    pub pending_operation: Option<PendingOperation>,
    pub status_message: String,
    pub error_title: String,
    pub error_body: String,
    pub should_quit: bool,
}

/// The number of changes of `cs` in `section`.
pub open spec fn count_section(cs: Seq<Change>, section: ChangeSection) -> nat
    decreases cs.len(),
{
    if cs.len() == 0 {
        0
    } else {
        count_section(cs.drop_last(), section) + if cs.last().section == section {
            1nat
        } else {
            0nat
        }
    }
}

pub fn count_changes(changes: &Vec<Change>, section: ChangeSection) -> (r: usize)
    ensures
        r == count_section(changes@, section),
{
    let mut n: usize = 0;
    let mut i: usize = 0;
    while i < changes.len()
        invariant
            i <= changes.len(),
            n == count_section(changes@.take(i as int), section),
            n <= i,
        decreases changes.len() - i,
    {
        assert(changes@.take(i + 1).drop_last() =~= changes@.take(i as int));
        if changes[i].section.same(section) {
            n += 1;
        }
        i += 1;
    }
    assert(changes@.take(changes.len() as int) =~= changes@);
    n
}

/// The index of the first change whose key is `k`.
pub open spec fn first_with_key(cs: Seq<Change>, k: ChangeKeyView) -> Option<int> {
    if exists|i: int| 0 <= i < cs.len() && (#[trigger] cs[i]).key@ == k {
        Some(choose|i: int| 0 <= i < cs.len() && (#[trigger] cs[i]).key@ == k && forall|j: int| 0 <= j < i ==> cs[j].key@ != k)
    } else {
        None
    }
}

/// The selection after a refresh: the change with the remembered key, else
/// the remembered position kept inside the list.
pub open spec fn restored_selection(cs: Seq<Change>, key: Option<ChangeKeyView>, fallback: int) -> int {
    if cs.len() == 0 {
        0
    } else {
        match key {
            Some(k) => match first_with_key(cs, k) {
                Some(i) => i,
                None => spec_clamp_index(fallback, cs.len() as int),
            },
            None => spec_clamp_index(fallback, cs.len() as int),
        }
    }
}

/// Some change of `cs` carries key `k`.
pub open spec fn carries(cs: Seq<Change>, k: ChangeKeyView) -> bool {
    exists|i: int| 0 <= i < cs.len() && (#[trigger] cs[i]).key@ == k
}

proof fn lemma_first_carrier(cs: Seq<Change>, k: ChangeKeyView, i: int)
    requires
        0 <= i < cs.len(),
        cs[i].key@ == k,
    ensures
        exists|m: int| 0 <= m < cs.len() && (#[trigger] cs[m]).key@ == k && forall|j: int| 0 <= j < m ==> cs[j].key@ != k,
    decreases i,
{
    if exists|j: int| 0 <= j < i && (#[trigger] cs[j]).key@ == k {
        let j = choose|j: int| 0 <= j < i && (#[trigger] cs[j]).key@ == k;
        lemma_first_carrier(cs, k, j);
    } else {
        assert(forall|j: int| 0 <= j < i ==> cs[j].key@ != k);
    }
}

/// After a refresh the selection is on a change whenever there is one: on
/// the first change that carries the remembered key where one does, else
/// at the remembered position kept inside the list.
pub proof fn lemma_refresh_selection(cs: Seq<Change>, key: Option<ChangeKeyView>, fallback: int)
    requires
        cs.len() > 0,
        fallback >= 0,
    ensures
        0 <= restored_selection(cs, key, fallback) < cs.len(),
        key matches Some(k) ==> (carries(cs, k) ==> cs[restored_selection(cs, key, fallback)].key@ == k && forall|j: int|
            0 <= j < restored_selection(cs, key, fallback) ==> cs[j].key@ != k),
        (key is None || (key matches Some(k) && !carries(cs, k))) ==> restored_selection(cs, key, fallback)
            == (if fallback < cs.len() {
            fallback
        } else {
            cs.len() - 1
        }),
{
    if let Some(k) = key {
        if carries(cs, k) {
            let i = choose|i: int| 0 <= i < cs.len() && (#[trigger] cs[i]).key@ == k;
            lemma_first_carrier(cs, k, i);
        }
    }
}

/// After a refresh a key stays marked exactly when it was marked and some
/// change still carries it.
pub proof fn lemma_refresh_marks(marked: Seq<ChangeKeyView>, cs: Seq<Change>, k: ChangeKeyView)
    ensures
        keep_present(marked, cs).contains(k) == (marked.contains(k) && carries(cs, k)),
    decreases marked.len(),
{
    if marked.len() > 0 {
        lemma_refresh_marks(marked.drop_last(), cs, k);
        let rest = keep_present(marked.drop_last(), cs);
        assert(marked =~= marked.drop_last().push(marked.last()));
        if marked.contains(k) && !marked.drop_last().contains(k) {
            assert(marked.last() == k) by {
                let i = choose|i: int| 0 <= i < marked.len() && marked[i] == k;
                if i < marked.len() - 1 {
                    assert(marked.drop_last()[i] == k);
                }
            }
        }
        if marked.drop_last().contains(k) {
            let i = choose|i: int| 0 <= i < marked.drop_last().len() && marked.drop_last()[i] == k;
            assert(marked[i] == k);
        }
        if carries(cs, marked.last()) {
            assert(rest.push(marked.last()).contains(k) == (rest.contains(k) || marked.last() == k)) by {
                if rest.push(marked.last()).contains(k) {
                    let i = choose|i: int| 0 <= i < rest.len() + 1 && rest.push(marked.last())[i] == k;
                    if i < rest.len() {
                        assert(rest[i] == k);
                    }
                }
                if rest.contains(k) {
                    let i = choose|i: int| 0 <= i < rest.len() && rest[i] == k;
                    assert(rest.push(marked.last())[i] == k);
                }
                if marked.last() == k {
                    assert(rest.push(marked.last())[rest.len() as int] == k);
                }
            }
        }
    }
}

/// The keys of `marked` that some change of `cs` still carries, in order.
pub open spec fn keep_present(marked: Seq<ChangeKeyView>, cs: Seq<Change>) -> Seq<ChangeKeyView>
    decreases marked.len(),
{
    if marked.len() == 0 {
        Seq::empty()
    } else if exists|i: int| 0 <= i < cs.len() && (#[trigger] cs[i]).key@ == marked.last() {
        keep_present(marked.drop_last(), cs).push(marked.last())
    } else {
        keep_present(marked.drop_last(), cs)
    }
}

/// The views of a list of keys.
pub open spec fn keys_view(v: Seq<ChangeKey>) -> Seq<ChangeKeyView> {
    v.map_values(|k: ChangeKey| k@)
}

/// `r` is the entry at `index` of `v`, or nothing when there is none.
pub open spec fn is_entry<T>(r: Option<&T>, v: Seq<T>, index: int) -> bool {
    match r {
        Some(x) => 0 <= index < v.len() && *x == v[index],
        None => !(0 <= index < v.len()),
    }
}

/// A copy of a list of keys.
fn copy_keys(v: &Vec<ChangeKey>) -> (r: Vec<ChangeKey>)
    ensures
        r@.map_values(|k: ChangeKey| k@) == v@.map_values(|k: ChangeKey| k@),
{
    let mut r: Vec<ChangeKey> = Vec::new();
    let mut i: usize = 0;
    while i < v.len()
        invariant
            i <= v.len(),
            r@.map_values(|k: ChangeKey| k@) == v@.take(i as int).map_values(|k: ChangeKey| k@),
        decreases v.len() - i,
    {
        let ghost before = r@.map_values(|k: ChangeKey| k@);
        r.push(v[i].copy());
        proof {
            assert(r@.map_values(|k: ChangeKey| k@) =~= before.push(v@[i as int]@));
            assert(v@.take(i + 1).map_values(|k: ChangeKey| k@) =~= v@.take(i as int).map_values(
                |k: ChangeKey| k@,
            ).push(v@[i as int]@));
        }
        i += 1;
    }
    assert(v@.take(v.len() as int) =~= v@);
    r
}

/// The index of the first change whose key is `k`.
fn find_key(changes: &Vec<Change>, k: &ChangeKey) -> (r: Option<usize>)
    ensures
        crate::text::opt_index(r) == first_with_key(changes@, k@),
{
    let mut i: usize = 0;
    while i < changes.len()
        invariant
            i <= changes.len(),
            forall|j: int| 0 <= j < i ==> changes@[j].key@ != k@,
        decreases changes.len() - i,
    {
        if changes[i].key.equals(k) {
            proof {
                assert(changes@[i as int].key@ == k@);
                let c = choose|c: int|
                    0 <= c < changes@.len() && (#[trigger] changes@[c]).key@ == k@ && forall|j: int|
                        0 <= j < c ==> changes@[j].key@ != k@;
                assert(c == i) by {
                    if c < i {
                    } else if c > i {
                    }
                }
            }
            return Some(i);
        }
        i += 1;
    }
    None
}

/// The keys of `marked` that some change still carries, in order.
fn present_keys(marked: &Vec<ChangeKey>, changes: &Vec<Change>) -> (kept: Vec<ChangeKey>)
    requires
        sorted_keys(marked@),
    ensures
        sorted_keys(kept@),
        keys_view(kept@) == keep_present(keys_view(marked@), changes@),
{
    let mut kept: Vec<ChangeKey> = Vec::new();
    let mut i: usize = 0;
    while i < marked.len()
        invariant
            i <= marked.len(),
            sorted_keys(marked@),
            keys_view(kept@) == keep_present(keys_view(marked@).take(i as int), changes@),
            sorted_keys(kept@),
            forall|a: int, b: int|
                0 <= a < kept.len() && i <= b < marked.len() ==> key_lt(#[trigger] kept@[a]@, #[trigger] marked@[b]@),
        decreases marked.len() - i,
    {
        let ghost mv = keys_view(marked@);
        assert(mv.take(i + 1).drop_last() =~= mv.take(i as int));
        assert(mv.take(i + 1).last() == marked@[i as int]@);
        let found = find_key(changes, &marked[i]);
        let present = found.is_some();
        let ghost before = keys_view(kept@);
        if present {
            kept.push(marked[i].copy());
            assert(keys_view(kept@) =~= before.push(marked@[i as int]@));
        }
        proof {
            assert forall|a: int, b: int|
                0 <= a < kept.len() && i + 1 <= b < marked.len() implies key_lt(#[trigger] kept@[a]@, #[trigger] marked@[b]@) by {
                if a == kept.len() - 1 && present {
                    assert(key_lt(marked@[i as int]@, marked@[b]@));
                }
            }
        }
        i += 1;
    }
    assert(keys_view(marked@).take(marked.len() as int) =~= keys_view(marked@));
    kept
}

impl AppState {
    /// Every selection at the first row of its list, in step with the
    /// marked keys kept in order.
    pub open spec fn wf(&self) -> bool {
        sorted_keys(self.marked@)
    }

    /// The state of a freshly opened repository.
    pub fn new(repo: RepoSummary) -> (s: AppState)
        ensures
            s.wf(),
            s.repo@ == repo@,
            s.panel == Panel::Changes,
            s.changes.len() == 0,
            s.selected == 0,
            s.marked.len() == 0,
            s.diff is None,
            s.diff_context == 3,
            s.whitespace_mode == WhitespaceMode::Normal,
            s.diff_scroll == 0,
            s.inspector_scroll == 0,
            s.diff_hunk == 0,
            s.focus == Focus::Changes,
            s.modal == Modal::Closed,
            s.commit_summary@.len() == 0,
            s.commit_body@.len() == 0,
            !s.commit_body_focus,
            s.palette_query@.len() == 0,
            s.stashes.len() == 0 && s.selected_stash == 0 && s.stash_patch is None,
            s.branches.len() == 0 && s.selected_branch == 0,
            s.log.len() == 0 && s.selected_log == 0 && s.log_patch is None,
            s.remotes.len() == 0 && s.selected_remote == 0,
            s.worktrees.len() == 0 && s.selected_worktree == 0,
            s.submodules.len() == 0 && s.selected_submodule == 0,
            s.selected_repo == 0,
            s.conflict_detail is None,
            s.rebase_state is None,
            s.current_upstream is None,
            s.pending_handoff is None,
            s.retry_handoff is None,
            s.confirm_title@.len() == 0,
            s.confirm_body@.len() == 0,
            s.pending_discard.len() == 0,
            s.pending_operation is None,
            s.status_message@ == "Ready"@,
            s.error_title@.len() == 0,
            s.error_body@.len() == 0,
            !s.should_quit,
    {
        AppState {
            repo,
            panel: Panel::Changes,
            changes: Vec::new(),
            selected: 0,
            marked: Vec::new(),
            diff: None,
            diff_context: 3,
            whitespace_mode: WhitespaceMode::Normal,
            diff_scroll: 0,
            inspector_scroll: 0,
            diff_hunk: 0,
            focus: Focus::Changes,
            modal: Modal::Closed,
            commit_summary: String::new(),
            commit_body: String::new(),
            commit_body_focus: false,
            palette_query: String::new(),
            stashes: Vec::new(),
            selected_stash: 0,
            stash_patch: None,
            branches: Vec::new(),
            selected_branch: 0,
            log: Vec::new(),
            selected_log: 0,
            log_patch: None,
            remotes: Vec::new(),
            selected_remote: 0,
            worktrees: Vec::new(),
            selected_worktree: 0,
            submodules: Vec::new(),
            selected_submodule: 0,
            selected_repo: 0,
            conflict_detail: None,
            rebase_state: None,
            current_upstream: None,
            pending_handoff: None,
            retry_handoff: None,
            confirm_title: String::new(),
            confirm_body: String::new(),
            pending_discard: Vec::new(),
            pending_operation: None,
            status_message: copy_str("Ready"),
            error_title: String::new(),
            error_body: String::new(),
            should_quit: false,
        }
    }

    /// The selected change, if the selection is on one.
    pub fn selected_change(&self) -> (r: Option<&Change>)
        ensures
            is_entry(r, self.changes@, self.selected as int),
    {
        if self.selected < self.changes.len() {
            Some(&self.changes[self.selected])
        } else {
            None
        }
    }

    /// Whether `key` is marked; paths compare by their components.
    pub fn is_marked(&self, key: &ChangeKey) -> (r: bool)
        ensures
            r == has_key(self.marked@, key@),
    {
        let mut i: usize = 0;
        while i < self.marked.len()
            invariant
                i <= self.marked.len(),
                forall|j: int| 0 <= j < i ==> self.marked@[j]@ != key@,
            decreases self.marked.len() - i,
        {
            if self.marked[i].equals(key) {
                return true;
            }
            i += 1;
        }
        false
    }

    /// The key of the selected change.
    pub fn selected_change_key(&self) -> (r: Option<ChangeKey>)
        ensures
            self.selected < self.changes.len() ==> (r matches Some(k) && k@ == self.changes@[self.selected as int].key@),
            self.selected >= self.changes.len() ==> r is None,
    {
        if self.selected < self.changes.len() {
            Some(self.changes[self.selected].key.copy())
        } else {
            None
        }
    }

    /// The keys an operation applies to: the marked ones when any are
    /// marked (in key order), else the selected change's.
    pub fn selected_or_marked_keys(&self) -> (r: Vec<ChangeKey>)
        ensures
            self.marked.len() > 0 ==> r@.map_values(|k: ChangeKey| k@) == self.marked@.map_values(|k: ChangeKey| k@),
            self.marked.len() == 0 && self.selected < self.changes.len() ==> (r.len() == 1 && r@[0]@
                == self.changes@[self.selected as int].key@),
            self.marked.len() == 0 && self.selected >= self.changes.len() ==> r.len() == 0,
    {
        if self.marked.len() == 0 {
            let mut r: Vec<ChangeKey> = Vec::new();
            if let Some(k) = self.selected_change_key() {
                r.push(k);
            }
            r
        } else {
            copy_keys(&self.marked)
        }
    }

    /// The number of staged changes.
    pub fn staged_count(&self) -> (r: usize)
        ensures
            r == count_section(self.changes@, ChangeSection::Staged),
    {
        count_changes(&self.changes, ChangeSection::Staged)
    }

    /// The number of conflicted files.
    pub fn conflict_count(&self) -> (r: usize)
        ensures
            r == count_section(self.changes@, ChangeSection::Conflict),
    {
        count_changes(&self.changes, ChangeSection::Conflict)
    }

    /// Keeps the selection on a change: the last one when it ran past the
    /// end, the first (0) for an empty list.
    pub fn clamp_selection(&mut self)
        ensures
            final(self).selected == spec_clamp_index(old(self).selected as int, old(self).changes.len() as int),
            *final(self) == (AppState { selected: final(self).selected, ..*old(self) }),
    {
        if self.changes.len() == 0 {
            self.selected = 0;
        } else if self.selected >= self.changes.len() {
            self.selected = self.changes.len() - 1;
        }
    }

    /// Selects the change with `key` after a refresh, else the position
    /// `fallback_index` kept inside the list.
    pub fn restore_selection_by_key(&mut self, key: Option<&ChangeKey>, fallback_index: usize)
        ensures
            final(self).selected == restored_selection(
                old(self).changes@,
                match key {
                    Some(k) => Some(k@),
                    None => None,
                },
                fallback_index as int,
            ),
            *final(self) == (AppState { selected: final(self).selected, ..*old(self) }),
    {
        if self.changes.len() == 0 {
            self.selected = 0;
            return;
        }
        if let Some(k) = key {
            if let Some(i) = find_key(&self.changes, k) {
                self.selected = i;
                return;
            }
        }
        self.selected = clamp_index(fallback_index, self.changes.len());
    }

    /// Drops the marks of changes that are gone.
    pub fn retain_valid_marks(&mut self)
        requires
            old(self).wf(),
        ensures
            final(self).wf(),
            keys_view(final(self).marked@) == keep_present(keys_view(old(self).marked@), old(self).changes@),
            *final(self) == (AppState { marked: final(self).marked, ..*old(self) }),
    {
        let kept = present_keys(&self.marked, &self.changes);
        self.marked = kept;
    }

    /// The selected stash entry.
    pub fn selected_stash(&self) -> (r: Option<&StashEntry>)
        ensures
            is_entry(r, self.stashes@, self.selected_stash as int),
    {
        if self.selected_stash < self.stashes.len() {
            Some(&self.stashes[self.selected_stash])
        } else {
            None
        }
    }

    /// The selected branch.
    pub fn selected_branch(&self) -> (r: Option<&BranchEntry>)
        ensures
            is_entry(r, self.branches@, self.selected_branch as int),
    {
        if self.selected_branch < self.branches.len() {
            Some(&self.branches[self.selected_branch])
        } else {
            None
        }
    }

    /// The selected commit of the log.
    pub fn selected_log_entry(&self) -> (r: Option<&LogEntry>)
        ensures
            is_entry(r, self.log@, self.selected_log as int),
    {
        if self.selected_log < self.log.len() {
            Some(&self.log[self.selected_log])
        } else {
            None
        }
    }

    /// The selected remote.
    pub fn selected_remote(&self) -> (r: Option<&RemoteEntry>)
        ensures
            is_entry(r, self.remotes@, self.selected_remote as int),
    {
        if self.selected_remote < self.remotes.len() {
            Some(&self.remotes[self.selected_remote])
        } else {
            None
        }
    }

    /// The selected work tree.
    pub fn selected_worktree(&self) -> (r: Option<&WorktreeEntry>)
        ensures
            is_entry(r, self.worktrees@, self.selected_worktree as int),
    {
        if self.selected_worktree < self.worktrees.len() {
            Some(&self.worktrees[self.selected_worktree])
        } else {
            None
        }
    }

    /// The selected submodule.
    pub fn selected_submodule(&self) -> (r: Option<&SubmoduleEntry>)
        ensures
            is_entry(r, self.submodules@, self.selected_submodule as int),
    {
        if self.selected_submodule < self.submodules.len() {
            Some(&self.submodules[self.selected_submodule])
        } else {
            None
        }
    }

    /// The work tree under the Repos panel's selection (work trees come
    /// first, then submodules).
    pub fn selected_repo_worktree(&self) -> (r: Option<&WorktreeEntry>)
        ensures
            is_entry(r, self.worktrees@, self.selected_repo as int),
    {
        if self.selected_repo < self.worktrees.len() {
            Some(&self.worktrees[self.selected_repo])
        } else {
            None
        }
    }

    /// The submodule under the Repos panel's selection.
    pub fn selected_repo_submodule(&self) -> (r: Option<&SubmoduleEntry>)
        ensures
            self.selected_repo < self.worktrees.len() ==> r is None,
            self.selected_repo >= self.worktrees.len() ==> is_entry(
                r,
                self.submodules@,
                self.selected_repo - self.worktrees.len(),
            ),
    {
        if self.selected_repo < self.worktrees.len() {
            return None;
        }
        let index = self.selected_repo - self.worktrees.len();
        if index < self.submodules.len() {
            Some(&self.submodules[index])
        } else {
            None
        }
    }

    /// Keeps every panel's selection inside its list.
    pub fn clamp_panel_selection(&mut self)
        requires
            old(self).worktrees.len() + old(self).submodules.len() <= usize::MAX,
        ensures
            final(self).selected_stash == spec_clamp_index(old(self).selected_stash as int, old(self).stashes.len() as int),
            final(self).selected_branch == spec_clamp_index(old(self).selected_branch as int, old(self).branches.len() as int),
            final(self).selected_log == spec_clamp_index(old(self).selected_log as int, old(self).log.len() as int),
            final(self).selected_remote == spec_clamp_index(old(self).selected_remote as int, old(self).remotes.len() as int),
            final(self).selected_worktree == spec_clamp_index(old(self).selected_worktree as int, old(self).worktrees.len() as int),
            final(self).selected_submodule == spec_clamp_index(
                old(self).selected_submodule as int,
                old(self).submodules.len() as int,
            ),
            final(self).selected_repo == spec_clamp_index(
                old(self).selected_repo as int,
                old(self).worktrees.len() + old(self).submodules.len(),
            ),
            *final(self) == (AppState {
                selected_stash: final(self).selected_stash,
                selected_branch: final(self).selected_branch,
                selected_log: final(self).selected_log,
                selected_remote: final(self).selected_remote,
                selected_worktree: final(self).selected_worktree,
                selected_submodule: final(self).selected_submodule,
                selected_repo: final(self).selected_repo,
                ..*old(self)
            }),
    {
        self.selected_stash = clamp_index(self.selected_stash, self.stashes.len());
        self.selected_branch = clamp_index(self.selected_branch, self.branches.len());
        self.selected_log = clamp_index(self.selected_log, self.log.len());
        self.selected_remote = clamp_index(self.selected_remote, self.remotes.len());
        self.selected_worktree = clamp_index(self.selected_worktree, self.worktrees.len());
        self.selected_submodule = clamp_index(self.selected_submodule, self.submodules.len());
        self.selected_repo = clamp_index(self.selected_repo, self.worktrees.len() + self.submodules.len());
    }

    /// Marks or unmarks the selected change (on the Changes panel only).
    pub fn toggle_mark(&mut self)
        requires
            old(self).wf(),
        ensures
            toggle_mark_post(*old(self), *final(self)),
    {
        if self.panel != Panel::Changes {
            self.status_message = copy_str("Marks apply to the Changes panel");
            return;
        }
        if let Some(key) = self.selected_change_key() {
            toggle_key(&mut self.marked, &key);
        }
    }
}

/// What one refresh read: the status, and each read-only panel's list where
/// reading it succeeded (`None` keeps what the panel showed).
pub struct RefreshPayload {
    pub snapshot: StatusSnapshot,
    pub stashes: Option<Vec<StashEntry>>,
    pub branches: Option<Vec<BranchEntry>>,
    pub log: Option<Vec<LogEntry>>,
    pub remotes: Option<Vec<RemoteEntry>>,
    pub worktrees: Option<Vec<WorktreeEntry>>,
    pub submodules: Option<Vec<SubmoduleEntry>>,
    pub rebase_state: Option<RebaseState>,
    pub current_upstream: Option<UpstreamBranch>,
}

/// The list a refresh leaves: the one read, else the one shown before.
pub open spec fn refreshed<T>(read: Option<Vec<T>>, shown: Vec<T>) -> Vec<T> {
    match read {
        Some(v) => v,
        None => shown,
    }
}

/// The view of an optional key.
pub open spec fn opt_key_view(key: Option<&ChangeKey>) -> Option<ChangeKeyView> {
    match key {
        Some(k) => Some(k@),
        None => None,
    }
}

impl AppState {
    /// Takes in what a refresh read: the header, the changes (keeping the
    /// selection on the change with `selected_key`, else near
    /// `selected_index`, and the marks of changes still present), each panel
    /// list that was read, the rebase and upstream state, each panel's
    /// selection kept inside its list, and `message` as the status where it
    /// is not empty.
    pub fn apply_refresh_payload(
        &mut self,
        git: &GitCli,
        payload: RefreshPayload,
        selected_key: Option<&ChangeKey>,
        selected_index: usize,
        message: &str,
    )
        requires
            old(self).wf(),
            refreshed(payload.worktrees, old(self).worktrees).len() + refreshed(
                payload.submodules,
                old(self).submodules,
            ).len() <= usize::MAX,
        ensures
            final(self).wf(),
            final(self).repo@ == summary_view(git@, payload.snapshot@),
            final(self).changes == payload.snapshot.changes,
            final(self).selected == restored_selection(
                payload.snapshot.changes@,
                opt_key_view(selected_key),
                selected_index as int,
            ),
            keys_view(final(self).marked@) == keep_present(keys_view(old(self).marked@), payload.snapshot.changes@),
            final(self).stashes == refreshed(payload.stashes, old(self).stashes),
            final(self).branches == refreshed(payload.branches, old(self).branches),
            final(self).log == refreshed(payload.log, old(self).log),
            final(self).remotes == refreshed(payload.remotes, old(self).remotes),
            final(self).worktrees == refreshed(payload.worktrees, old(self).worktrees),
            final(self).submodules == refreshed(payload.submodules, old(self).submodules),
            final(self).rebase_state == payload.rebase_state,
            final(self).current_upstream == payload.current_upstream,
            final(self).selected_stash == spec_clamp_index(old(self).selected_stash as int, final(self).stashes.len() as int),
            final(self).selected_branch == spec_clamp_index(
                old(self).selected_branch as int,
                final(self).branches.len() as int,
            ),
            final(self).selected_log == spec_clamp_index(old(self).selected_log as int, final(self).log.len() as int),
            final(self).selected_remote == spec_clamp_index(
                old(self).selected_remote as int,
                final(self).remotes.len() as int,
            ),
            final(self).selected_worktree == spec_clamp_index(
                old(self).selected_worktree as int,
                final(self).worktrees.len() as int,
            ),
            final(self).selected_submodule == spec_clamp_index(
                old(self).selected_submodule as int,
                final(self).submodules.len() as int,
            ),
            final(self).selected_repo == spec_clamp_index(
                old(self).selected_repo as int,
                final(self).worktrees.len() + final(self).submodules.len(),
            ),
            final(self).status_message@ == (if message@.len() > 0 {
                message@
            } else {
                old(self).status_message@
            }),
            *final(self) == (AppState {
                repo: final(self).repo,
                changes: final(self).changes,
                selected: final(self).selected,
                marked: final(self).marked,
                stashes: final(self).stashes,
                branches: final(self).branches,
                log: final(self).log,
                remotes: final(self).remotes,
                worktrees: final(self).worktrees,
                submodules: final(self).submodules,
                rebase_state: final(self).rebase_state,
                current_upstream: final(self).current_upstream,
                selected_stash: final(self).selected_stash,
                selected_branch: final(self).selected_branch,
                selected_log: final(self).selected_log,
                selected_remote: final(self).selected_remote,
                selected_worktree: final(self).selected_worktree,
                selected_submodule: final(self).selected_submodule,
                selected_repo: final(self).selected_repo,
                status_message: final(self).status_message,
                ..*old(self)
            }),
    {
        let RefreshPayload {
            snapshot,
            stashes,
            branches,
            log,
            remotes,
            worktrees,
            submodules,
            rebase_state,
            current_upstream,
        } = payload;
        self.repo = git.repo_summary(&snapshot);
        self.changes = snapshot.changes;
        self.restore_selection_by_key(selected_key, selected_index);
        self.retain_valid_marks();
        if let Some(v) = stashes {
            self.stashes = v;
        }
        if let Some(v) = branches {
            self.branches = v;
        }
        if let Some(v) = log {
            self.log = v;
        }
        if let Some(v) = remotes {
            self.remotes = v;
        }
        if let Some(v) = worktrees {
            self.worktrees = v;
        }
        if let Some(v) = submodules {
            self.submodules = v;
        }
        self.rebase_state = rebase_state;
        self.current_upstream = current_upstream;
        self.clamp_panel_selection();
        if !message.is_empty() {
            self.status_message = copy_str(message);
        }
    }
}

/// What `toggle_mark` leaves: the marks of the selected change flipped on the
/// Changes panel, else a status message.
pub open spec fn toggle_mark_post(s: AppState, t: AppState) -> bool {
    &&& (t.wf())
    &&& (s.panel != Panel::Changes ==> t.status_message@ == "Marks apply to the Changes panel"@
            && t.marked == s.marked)
    &&& (s.panel == Panel::Changes ==> t.status_message == s.status_message)
    &&& (s.panel == Panel::Changes && s.selected < s.changes.len() ==> forall|k: ChangeKeyView|
            #![trigger has_key(t.marked@, k)]
            has_key(t.marked@, k) == (if k == s.changes@[s.selected as int].key@ {
                !has_key(s.marked@, k)
            } else {
                has_key(s.marked@, k)
            }))
    &&& (s.panel == Panel::Changes && s.selected >= s.changes.len() ==> t.marked
            == s.marked)
    &&& (t == (AppState { marked: t.marked, status_message: t.status_message, ..s }))
}

} // verus!
