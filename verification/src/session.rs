//! What the interface decides on its own state: which commands are
//! available, how selections, scrolling and focus move, and which rows the
//! rail draws.
use crate::action::Action;
use crate::commands::CommandId;
use crate::git::diff::{Diff, WhitespaceMode};
use crate::git::order::section_rank;
use crate::git::repo::{hunk_action_disabled_reason, hunk_disabled_spec};
use crate::git::{ChangeSection, GitError};
use crate::model::{count_section, AppState, Focus, Modal, Panel, TerminalHandoff};
use crate::rail::{
    index_at_row, item_at_row, ranks, repo_index_at_row, repo_item_at_row, repo_row_of,
    repo_row_of_index, row_of, row_of_index, section_key,
};
use crate::text::{copy_str, lossy_chars, opt_index, push_str};
use vstd::prelude::*;

verus! {

impl AppState {
    /// The Changes panel is open and the selected change is a conflict.
    pub open spec fn spec_selected_conflict(&self) -> bool {
        &&& self.panel == Panel::Changes
        &&& self.selected < self.changes.len()
        &&& self.changes@[self.selected as int].section == ChangeSection::Conflict
    }

    pub fn selected_change_is_conflict(&self) -> (r: bool)
        ensures
            r == self.spec_selected_conflict(),
    {
        self.panel == Panel::Changes && self.selected < self.changes.len()
            && self.changes[self.selected].is_conflict()
    }

    /// Why the command `id` cannot run now, if it cannot.
    pub open spec fn disabled_spec(&self, id: CommandId) -> Option<Seq<char>> {
        let has_change = self.selected < self.changes.len();
        let hunk = |reverse: bool|
            if !has_change {
                Some("no change selected"@)
            } else {
                match self.diff {
                    None => Some("no diff loaded"@),
                    Some(d) => hunk_disabled_spec(
                        self.changes@[self.selected as int].section,
                        self.changes@[self.selected as int].kind,
                        d.hunks.len() as int,
                        d.is_binary,
                        d.whitespace,
                        self.diff_hunk as int,
                        reverse,
                    ),
                }
            };
        match id {
            CommandId::Stage | CommandId::Unstage | CommandId::Discard => if self.panel != Panel::Changes {
                Some("open Changes first"@)
            } else if !has_change {
                Some("no change selected"@)
            } else {
                None
            },
            CommandId::StageAll => if self.panel != Panel::Changes {
                Some("open Changes first"@)
            } else if self.changes.len() == 0 {
                Some("no visible changes"@)
            } else {
                None
            },
            CommandId::StageHunk => hunk(false),
            CommandId::UnstageHunk => if self.panel == Panel::Branches || self.panel == Panel::Remotes
                || self.panel == Panel::Repos {
                None
            } else {
                hunk(true)
            },
            CommandId::Commit => if count_section(self.changes@, ChangeSection::Staged) == 0 {
                Some("stage changes first"@)
            } else {
                None
            },
            CommandId::ApplyStash | CommandId::DropStash => if self.panel != Panel::Stash {
                Some("open Stash first"@)
            } else if self.selected_stash >= self.stashes.len() {
                Some("no stash selected"@)
            } else {
                None
            },
            CommandId::SwitchBranch => if self.panel != Panel::Branches {
                Some("open Branches first"@)
            } else if self.selected_branch < self.branches.len() {
                if self.branches@[self.selected_branch as int].remote {
                    Some("remote branches are read-only"@)
                } else if self.branches@[self.selected_branch as int].current {
                    Some("already on this branch"@)
                } else {
                    None
                }
            } else {
                Some("no branch selected"@)
            },
            CommandId::FetchRemote => if self.panel != Panel::Remotes {
                Some("open Remotes first"@)
            } else if self.selected_remote >= self.remotes.len() {
                Some("no remote selected"@)
            } else {
                None
            },
            CommandId::UpdateCurrentBranch => if self.changes.len() > 0 {
                Some("working tree is not clean"@)
            } else if self.current_upstream is None {
                Some("no upstream"@)
            } else {
                None
            },
            CommandId::PushCurrentBranch => if (match self.repo.behind {
                Some(b) => b,
                None => 0,
            }) > 0 {
                Some("branch is behind upstream"@)
            } else if self.current_upstream is None {
                Some("no upstream"@)
            } else {
                None
            },
            CommandId::SyncSubmodule => if self.selected_repo >= self.worktrees.len() && self.selected_repo
                - self.worktrees.len() < self.submodules.len() {
                None
            } else {
                Some("select a submodule"@)
            },
            CommandId::RebaseContinue | CommandId::RebaseAbort | CommandId::RebaseSkip => if self.rebase_state is None {
                Some("no rebase in progress"@)
            } else {
                None
            },
            CommandId::ExternalEditor => if self.retry_handoff is Some || self.spec_selected_conflict()
                || self.modal == Modal::Commit {
                None
            } else if self.panel == Panel::Changes {
                Some("select a conflict file or open Commit"@)
            } else {
                Some("available for commit messages and conflicts"@)
            },
            CommandId::StartInteractiveRebase => if self.changes.len() > 0 {
                Some("working tree is not clean"@)
            } else if self.current_upstream is None {
                Some("no upstream base"@)
            } else {
                None
            },
            _ => None,
        }
    }

    fn hunk_reason(&self, reverse: bool) -> (r: Option<String>)
        ensures
            match (if self.selected >= self.changes.len() {
                Some("no change selected"@)
            } else {
                match self.diff {
                    None => Some("no diff loaded"@),
                    Some(d) => hunk_disabled_spec(
                        self.changes@[self.selected as int].section,
                        self.changes@[self.selected as int].kind,
                        d.hunks.len() as int,
                        d.is_binary,
                        d.whitespace,
                        self.diff_hunk as int,
                        reverse,
                    ),
                }
            }) {
                Some(m) => r matches Some(s) && s@ == m,
                None => r is None,
            },
    {
        if self.selected >= self.changes.len() {
            return Some(copy_str("no change selected"));
        }
        match &self.diff {
            None => Some(copy_str("no diff loaded")),
            Some(d) => hunk_action_disabled_reason(&self.changes[self.selected], d, self.diff_hunk, reverse),
        }
    }

    /// Why the command `id` cannot run now (shown beside it in the palette
    /// and when it is chosen), or `None` when it can.
    pub fn command_disabled_reason(&self, id: CommandId) -> (r: Option<String>)
        ensures
            match self.disabled_spec(id) {
                Some(m) => r matches Some(s) && s@ == m,
                None => r is None,
            },
    {
        let has_change = self.selected < self.changes.len();
        match id {
            CommandId::Stage | CommandId::Unstage | CommandId::Discard => {
                if self.panel != Panel::Changes {
                    Some(copy_str("open Changes first"))
                } else if !has_change {
                    Some(copy_str("no change selected"))
                } else {
                    None
                }
            },
            CommandId::StageAll => {
                if self.panel != Panel::Changes {
                    Some(copy_str("open Changes first"))
                } else if self.changes.len() == 0 {
                    Some(copy_str("no visible changes"))
                } else {
                    None
                }
            },
            CommandId::StageHunk => self.hunk_reason(false),
            CommandId::UnstageHunk => {
                if self.panel == Panel::Branches || self.panel == Panel::Remotes || self.panel == Panel::Repos {
                    None
                } else {
                    self.hunk_reason(true)
                }
            },
            CommandId::Commit => {
                if self.staged_count() == 0 {
                    Some(copy_str("stage changes first"))
                } else {
                    None
                }
            },
            CommandId::ApplyStash | CommandId::DropStash => {
                if self.panel != Panel::Stash {
                    Some(copy_str("open Stash first"))
                } else if self.selected_stash >= self.stashes.len() {
                    Some(copy_str("no stash selected"))
                } else {
                    None
                }
            },
            CommandId::SwitchBranch => {
                if self.panel != Panel::Branches {
                    Some(copy_str("open Branches first"))
                } else if self.selected_branch < self.branches.len() {
                    let b = &self.branches[self.selected_branch];
                    if b.remote {
                        Some(copy_str("remote branches are read-only"))
                    } else if b.current {
                        Some(copy_str("already on this branch"))
                    } else {
                        None
                    }
                } else {
                    Some(copy_str("no branch selected"))
                }
            },
            CommandId::FetchRemote => {
                if self.panel != Panel::Remotes {
                    Some(copy_str("open Remotes first"))
                } else if self.selected_remote >= self.remotes.len() {
                    Some(copy_str("no remote selected"))
                } else {
                    None
                }
            },
            CommandId::UpdateCurrentBranch => {
                if self.changes.len() > 0 {
                    Some(copy_str("working tree is not clean"))
                } else if self.current_upstream.is_none() {
                    Some(copy_str("no upstream"))
                } else {
                    None
                }
            },
            CommandId::PushCurrentBranch => {
                let behind = match self.repo.behind {
                    Some(b) => b,
                    None => 0,
                };
                if behind > 0 {
                    Some(copy_str("branch is behind upstream"))
                } else if self.current_upstream.is_none() {
                    Some(copy_str("no upstream"))
                } else {
                    None
                }
            },
            CommandId::SyncSubmodule => {
                if self.selected_repo >= self.worktrees.len() && self.selected_repo - self.worktrees.len()
                    < self.submodules.len() {
                    None
                } else {
                    Some(copy_str("select a submodule"))
                }
            },
            CommandId::RebaseContinue | CommandId::RebaseAbort | CommandId::RebaseSkip => {
                if self.rebase_state.is_none() {
                    Some(copy_str("no rebase in progress"))
                } else {
                    None
                }
            },
            CommandId::ExternalEditor => {
                if self.retry_handoff.is_some() || self.selected_change_is_conflict() || self.modal == Modal::Commit {
                    None
                } else if self.panel == Panel::Changes {
                    Some(copy_str("select a conflict file or open Commit"))
                } else {
                    Some(copy_str("available for commit messages and conflicts"))
                }
            },
            CommandId::StartInteractiveRebase => {
                if self.changes.len() > 0 {
                    Some(copy_str("working tree is not clean"))
                } else if self.current_upstream.is_none() {
                    Some(copy_str("no upstream base"))
                } else {
                    None
                }
            },
            _ => None,
        }
    }

    /// The numbers of conflicted, staged, unstaged and untracked changes.
    pub fn section_counts(&self) -> (r: (usize, usize, usize, usize))
        ensures
            r.0 == count_section(self.changes@, ChangeSection::Conflict),
            r.1 == count_section(self.changes@, ChangeSection::Staged),
            r.2 == count_section(self.changes@, ChangeSection::Unstaged),
            r.3 == count_section(self.changes@, ChangeSection::Untracked),
    {
        (
            self.conflict_count(),
            self.staged_count(),
            crate::model::count_changes(&self.changes, ChangeSection::Unstaged),
            crate::model::count_changes(&self.changes, ChangeSection::Untracked),
        )
    }
}

// ---------------------------------------------------------------------------
// Rows of the rail
// ---------------------------------------------------------------------------

/// `lo..=hi` around `v`.
pub open spec fn clamp_int(v: int, lo: int, hi: int) -> int {
    if v < lo {
        lo
    } else if v > hi {
        hi
    } else {
        v
    }
}

/// A bound on sizes and positions that keeps index arithmetic in range.
pub open spec fn small(n: int) -> bool {
    0 <= n <= isize::MAX / 4
}

/// `x + delta` kept inside `0..=max`.
pub fn clamped_add(x: usize, delta: isize, max: usize) -> (r: usize)
    requires
        small(x as int),
        small(max as int),
        -(isize::MAX / 4) <= delta <= isize::MAX / 4,
    ensures
        r == clamp_int(x + delta, 0, max as int),
{
    let v = x as isize + delta;
    if v < 0 {
        0
    } else if v > max as isize {
        max
    } else {
        v as usize
    }
}

/// An item of the open panel is drawn at rail row `row`.
pub open spec fn row_found(s: AppState, row: int) -> bool {
    match s.panel {
        Panel::Changes => item_at_row(change_ranks(s.changes@), row) is Some,
        Panel::Stash => 0 <= row < s.stashes.len(),
        Panel::Branches => item_at_row(branch_ranks(s.branches@), row) is Some,
        Panel::Log => 0 <= row < s.log.len(),
        Panel::Remotes => 0 <= row < s.remotes.len(),
        Panel::Repos => repo_item_at_row(s.worktrees.len() as int, s.submodules.len() as int, row) is Some,
    }
}

/// What selecting rail row `row` leaves: where an item is drawn there it is
/// selected, the focus returns to the rail and the inspector to its top;
/// else nothing changes.
pub open spec fn row_selected(s: AppState, t: AppState, row: int) -> bool {
    if row_found(s, row) {
        &&& s.panel == Panel::Changes ==> Some(t.selected as int) == item_at_row(change_ranks(s.changes@), row)
        &&& s.panel == Panel::Branches ==> Some(t.selected_branch as int) == item_at_row(
            branch_ranks(s.branches@),
            row,
        )
        &&& s.panel == Panel::Repos ==> Some(t.selected_repo as int) == repo_item_at_row(
            s.worktrees.len() as int,
            s.submodules.len() as int,
            row,
        )
        &&& s.panel == Panel::Stash ==> t.selected_stash == row
        &&& s.panel == Panel::Log ==> t.selected_log == row
        &&& s.panel == Panel::Remotes ==> t.selected_remote == row
        &&& t == (AppState {
            selected: t.selected,
            selected_stash: t.selected_stash,
            selected_branch: t.selected_branch,
            selected_log: t.selected_log,
            selected_remote: t.selected_remote,
            selected_repo: t.selected_repo,
            focus: Focus::Changes,
            diff_scroll: 0,
            inspector_scroll: 0,
            diff_hunk: 0,
            ..s
        })
    } else {
        t == s
    }
}

impl AppState {
    /// The sizes and positions stay far from the machine limits.
    pub open spec fn sizes_ok(&self) -> bool {
        &&& small(self.changes.len() as int)
        &&& small(self.stashes.len() as int)
        &&& small(self.branches.len() as int)
        &&& small(self.log.len() as int)
        &&& small(self.remotes.len() as int)
        &&& small(self.worktrees.len() + self.submodules.len())
        &&& small(self.selected as int)
        &&& small(self.selected_stash as int)
        &&& small(self.selected_branch as int)
        &&& small(self.selected_log as int)
        &&& small(self.selected_remote as int)
        &&& small(self.selected_repo as int)
        &&& small(self.diff_scroll as int)
        &&& small(self.inspector_scroll as int)
        &&& small(self.diff_hunk as int)
    }

    /// The group key of each change (its section).
    pub fn change_group_keys(&self) -> (r: Vec<u8>)
        ensures
            r.len() == self.changes.len(),
            forall|i: int| 0 <= i < r.len() ==> r@[i] == section_rank(#[trigger] self.changes@[i].section),
    {
        let mut r: Vec<u8> = Vec::new();
        let mut i: usize = 0;
        while i < self.changes.len()
            invariant
                i <= self.changes.len(),
                r.len() == i,
                forall|k: int| 0 <= k < i ==> r@[k] == section_rank(#[trigger] self.changes@[k].section),
            decreases self.changes.len() - i,
        {
            r.push(section_key(self.changes[i].section));
            i += 1;
        }
        r
    }

    /// The group key of each branch (local or remote).
    pub fn branch_group_keys(&self) -> (r: Vec<u8>)
        ensures
            r.len() == self.branches.len(),
            forall|i: int| 0 <= i < r.len() ==> r@[i] == (if (#[trigger] self.branches@[i]).remote { 1u8 } else { 0u8 }),
    {
        let mut r: Vec<u8> = Vec::new();
        let mut i: usize = 0;
        while i < self.branches.len()
            invariant
                i <= self.branches.len(),
                r.len() == i,
                forall|k: int| 0 <= k < i ==> r@[k] == (if (#[trigger] self.branches@[k]).remote { 1u8 } else { 0u8 }),
            decreases self.branches.len() - i,
        {
            r.push(if self.branches[i].remote { 1u8 } else { 0u8 });
            i += 1;
        }
        r
    }

    /// The rail row of the selection of the open panel.
    pub fn selected_visual_row_for_panel(&self) -> (r: Option<usize>)
        requires
            self.sizes_ok(),
        ensures
            opt_index(r) == rail_row(*self),
            r matches Some(v) ==> v <= isize::MAX / 2 + 3,
    {
        match self.panel {
            Panel::Changes => {
                let keys = self.change_group_keys();
                proof {
                    assert(ranks(keys@) =~= change_ranks(self.changes@));
                }
                row_of_index(&keys, self.selected)
            },
            Panel::Stash => Some(self.selected_stash),
            Panel::Branches => {
                let keys = self.branch_group_keys();
                proof {
                    assert(ranks(keys@) =~= branch_ranks(self.branches@));
                }
                row_of_index(&keys, self.selected_branch)
            },
            Panel::Log => Some(self.selected_log),
            Panel::Remotes => Some(self.selected_remote),
            Panel::Repos => repo_row_of_index(self.worktrees.len(), self.submodules.len(), self.selected_repo),
        }
    }

    /// Puts the diff and inspector back at their tops.
    pub fn reset_inspector_position(&mut self)
        ensures
            *final(self) == (AppState { diff_scroll: 0, inspector_scroll: 0, diff_hunk: 0, ..*old(self) }),
    {
        self.diff_scroll = 0;
        self.inspector_scroll = 0;
        self.diff_hunk = 0;
    }

    /// Selects the item drawn at rail row `row` of the open panel. Returns
    /// whether an item was there; the focus then returns to the rail, the
    /// inspector goes back to its top and the caller reloads it.
    pub fn select_rail_visual_row(&mut self, row: usize) -> (selected: bool)
        requires
            old(self).sizes_ok(),
        ensures
            selected == row_found(*old(self), row as int),
            row_selected(*old(self), *final(self), row as int),
    {
        let found = match self.panel {
            Panel::Changes => {
                let keys = self.change_group_keys();
                proof {
                    assert(ranks(keys@) =~= change_ranks(self.changes@));
                }
                match index_at_row(&keys, row) {
                    Some(i) => {
                        self.selected = i;
                        true
                    },
                    None => false,
                }
            },
            Panel::Stash => {
                if row < self.stashes.len() {
                    self.selected_stash = row;
                    true
                } else {
                    false
                }
            },
            Panel::Branches => {
                let keys = self.branch_group_keys();
                proof {
                    assert(ranks(keys@) =~= branch_ranks(self.branches@));
                }
                match index_at_row(&keys, row) {
                    Some(i) => {
                        self.selected_branch = i;
                        true
                    },
                    None => false,
                }
            },
            Panel::Log => {
                if row < self.log.len() {
                    self.selected_log = row;
                    true
                } else {
                    false
                }
            },
            Panel::Remotes => {
                if row < self.remotes.len() {
                    self.selected_remote = row;
                    true
                } else {
                    false
                }
            },
            Panel::Repos => {
                match repo_index_at_row(self.worktrees.len(), self.submodules.len(), row) {
                    Some(i) => {
                        self.selected_repo = i;
                        true
                    },
                    None => false,
                }
            },
        };
        if found {
            self.focus = Focus::Changes;
            self.reset_inspector_position();
        }
        found
    }

    /// Selects the item at `visible_row` of a rail `viewport_height` rows
    /// high, scrolled so that the selection is visible.
    pub fn select_rail_visible_row(&mut self, visible_row: usize, viewport_height: usize) -> (selected: bool)
        requires
            old(self).sizes_ok(),
            small(visible_row as int),
        ensures
            selected == row_found(
                *old(self),
                crate::rail::viewport_offset(rail_row(*old(self)), viewport_height as int) + visible_row,
            ),
            row_selected(
                *old(self),
                *final(self),
                crate::rail::viewport_offset(rail_row(*old(self)), viewport_height as int) + visible_row,
            ),
    {
        let sel = self.selected_visual_row_for_panel();
        let offset = crate::rail::rail_viewport_offset(sel, viewport_height);
        proof {
            assert(opt_index(sel) == rail_row(*self));
        }
        self.select_rail_visual_row(offset + visible_row)
    }
}

/// The group ranks of a list of changes.
pub open spec fn change_ranks(cs: Seq<crate::git::Change>) -> Seq<int> {
    cs.map_values(|c: crate::git::Change| section_rank(c.section))
}

/// The group ranks of a list of branches.
pub open spec fn branch_ranks(bs: Seq<crate::git::explore::BranchEntry>) -> Seq<int> {
    bs.map_values(|b: crate::git::explore::BranchEntry| if b.remote { 1int } else { 0int })
}

/// The rail row of the selection of the open panel.
pub open spec fn rail_row(s: AppState) -> Option<int> {
    match s.panel {
        Panel::Changes => if s.selected < s.changes.len() {
            Some(row_of(change_ranks(s.changes@), s.selected as int))
        } else {
            None
        },
        Panel::Branches => if s.selected_branch < s.branches.len() {
            Some(row_of(branch_ranks(s.branches@), s.selected_branch as int))
        } else {
            None
        },
        Panel::Stash => Some(s.selected_stash as int),
        Panel::Log => Some(s.selected_log as int),
        Panel::Remotes => Some(s.selected_remote as int),
        Panel::Repos => repo_row_of(s.worktrees.len() as int, s.submodules.len() as int, s.selected_repo as int),
    }
}

// ---------------------------------------------------------------------------
// Moving and scrolling
// ---------------------------------------------------------------------------

/// The line the inspector's patch shows for a patch of `lines` lines.
pub open spec fn max_scroll(lines: int) -> int {
    if lines > 0 {
        lines - 1
    } else {
        0
    }
}

/// The number of leading hunks that start at or above `scroll`.
pub open spec fn hunks_above(starts: Seq<int>, scroll: int) -> int
    decreases starts.len(),
{
    if starts.len() == 0 || starts[0] > scroll {
        0
    } else {
        1 + hunks_above(starts.drop_first(), scroll)
    }
}

/// The hunk the patch view is in after scrolling to `scroll`: the last of
/// the leading hunks that start at or above it, else the first.
pub open spec fn hunk_at_scroll(starts: Seq<int>, scroll: int) -> int {
    if hunks_above(starts, scroll) == 0 {
        0
    } else {
        hunks_above(starts, scroll) - 1
    }
}

pub open spec fn hunk_starts(d: Diff) -> Seq<int> {
    d.hunks@.map_values(|h: crate::git::diff::DiffHunk| h.start_line as int)
}

proof fn lemma_hunks_above_step(starts: Seq<int>, scroll: int, k: int)
    requires
        0 <= k < starts.len(),
        forall|j: int| 0 <= j < k ==> starts[j] <= scroll,
    ensures
        hunks_above(starts, scroll) == k + hunks_above(starts.skip(k), scroll),
    decreases k,
{
    if k > 0 {
        assert(starts.drop_first().skip(k - 1) =~= starts.skip(k));
        lemma_hunks_above_step(starts.drop_first(), scroll, k - 1);
    } else {
        assert(starts.skip(0) =~= starts);
    }
}

proof fn lemma_hunks_above_all(starts: Seq<int>, scroll: int)
    requires
        forall|j: int| 0 <= j < starts.len() ==> starts[j] <= scroll,
    ensures
        hunks_above(starts, scroll) == starts.len(),
    decreases starts.len(),
{
    if starts.len() > 0 {
        lemma_hunks_above_all(starts.drop_first(), scroll);
    }
}

impl AppState {
    /// The patch the open panel's inspector shows, if any.
    pub open spec fn spec_active_diff(&self) -> Option<Diff> {
        match self.panel {
            Panel::Changes => self.diff,
            Panel::Stash => self.stash_patch,
            Panel::Log => self.log_patch,
            _ => None,
        }
    }

    pub fn active_diff(&self) -> (r: Option<&Diff>)
        ensures
            match self.spec_active_diff() {
                Some(d) => r matches Some(x) && *x == d,
                None => r is None,
            },
    {
        match self.panel {
            Panel::Changes => self.diff.as_ref(),
            Panel::Stash => self.stash_patch.as_ref(),
            Panel::Log => self.log_patch.as_ref(),
            _ => None,
        }
    }

    /// Jumps `delta` hunks in the active patch, scrolling to the hunk and
    /// focusing the patch; nothing happens without hunks.
    pub fn jump_hunk(&mut self, delta: isize)
        requires
            old(self).sizes_ok(),
            -(isize::MAX / 4) <= delta <= isize::MAX / 4,
            old(self).spec_active_diff() matches Some(d) ==> small(d.hunks.len() as int),
        ensures
            jump_hunk_post(*old(self), *final(self), delta),
    {
        let target = match self.active_diff() {
            None => None,
            Some(d) => {
                if d.hunks.len() == 0 {
                    None
                } else {
                    let next = clamped_add(self.diff_hunk, delta, d.hunks.len() - 1);
                    Some((next, d.hunks[next].start_line))
                }
            },
        };
        if let Some((next, start)) = target {
            self.diff_hunk = next;
            self.diff_scroll = start;
            self.focus = Focus::Diff;
        }
    }

    /// Selects the hunk that the patch view scrolled into.
    pub fn update_selected_hunk_from_scroll(&mut self)
        ensures
            match old(self).spec_active_diff() {
                Some(d) => *final(self) == (AppState {
                    diff_hunk: hunk_at_scroll(hunk_starts(d), old(self).diff_scroll as int) as usize,
                    ..*old(self)
                }),
                None => *final(self) == *old(self),
            },
    {
        let index = match self.active_diff() {
            None => None,
            Some(d) => {
                let ghost starts = hunk_starts(*d);
                let scroll = self.diff_scroll;
                let mut k: usize = 0;
                while k < d.hunks.len() && d.hunks[k].start_line <= scroll
                    invariant
                        starts == hunk_starts(*d),
                        k <= d.hunks.len(),
                        forall|j: int| 0 <= j < k ==> starts[j] <= scroll,
                    decreases d.hunks.len() - k,
                {
                    k += 1;
                }
                proof {
                    if k < d.hunks.len() {
                        lemma_hunks_above_step(starts, scroll as int, k as int);
                        assert(starts.skip(k as int)[0] == starts[k as int]);
                    } else {
                        lemma_hunks_above_all(starts, scroll as int);
                    }
                }
                Some(if k == 0 { 0 } else { k - 1 })
            },
        };
        if let Some(i) = index {
            self.diff_hunk = i;
        }
    }

    /// Scrolls the active patch by `delta` lines and follows with the hunk
    /// selection.
    pub fn scroll_diff(&mut self, delta: isize)
        requires
            old(self).sizes_ok(),
            -(isize::MAX / 4) <= delta <= isize::MAX / 4,
            old(self).spec_active_diff() matches Some(d) ==> small(d.lines.len() + 8),
        ensures
            scroll_diff_post(*old(self), *final(self), delta),
    {
        let next = match self.active_diff() {
            None => None,
            Some(d) => {
                let max = if d.lines.len() > 0 { d.lines.len() - 1 } else { 0 };
                Some(clamped_add(self.diff_scroll, delta, max))
            },
        };
        if let Some(n) = next {
            self.diff_scroll = n;
            self.update_selected_hunk_from_scroll();
        }
    }

    /// The inspector of the open panel scrolls a patch (rather than a fixed
    /// list of details).
    pub open spec fn spec_uses_patch_scroll(&self) -> bool {
        match self.panel {
            Panel::Changes => self.selected < self.changes.len() && self.changes@[self.selected as int].section
                != ChangeSection::Conflict && self.diff is Some,
            Panel::Stash => self.stash_patch is Some,
            Panel::Log => self.log_patch is Some,
            _ => false,
        }
    }

    pub fn inspector_uses_patch_scroll(&self) -> (r: bool)
        ensures
            r == self.spec_uses_patch_scroll(),
    {
        match self.panel {
            Panel::Changes => self.selected < self.changes.len() && !self.changes[self.selected].is_conflict()
                && self.diff.is_some(),
            Panel::Stash => self.stash_patch.is_some(),
            Panel::Log => self.log_patch.is_some(),
            _ => false,
        }
    }

    /// The number of lines of the open panel's inspector.
    pub open spec fn spec_inspector_lines(&self) -> int {
        match self.panel {
            Panel::Changes => match self.conflict_detail {
                Some(detail) => detail.stages.len() + 6,
                None => 3,
            },
            Panel::Branches => if self.selected_branch < self.branches.len() {
                10
            } else {
                3
            },
            Panel::Remotes => if self.selected_remote < self.remotes.len() {
                6
            } else {
                3
            },
            Panel::Repos => if self.selected_repo < self.worktrees.len() || (self.selected_repo >= self.worktrees.len()
                && self.selected_repo - self.worktrees.len() < self.submodules.len()) {
                10
            } else {
                3
            },
            _ => match self.spec_active_diff() {
                Some(d) => d.lines.len() + 1,
                None => 3,
            },
        }
    }

    pub fn inspector_line_count(&self) -> (r: usize)
        requires
            self.conflict_detail matches Some(d) ==> small(d.stages.len() + 8),
            self.stash_patch matches Some(d) ==> small(d.lines.len() + 8),
            self.log_patch matches Some(d) ==> small(d.lines.len() + 8),
        ensures
            r == self.spec_inspector_lines(),
    {
        match self.panel {
            Panel::Changes => match &self.conflict_detail {
                Some(detail) => detail.stages.len() + 6,
                None => 3,
            },
            Panel::Branches => if self.selected_branch < self.branches.len() {
                10
            } else {
                3
            },
            Panel::Remotes => if self.selected_remote < self.remotes.len() {
                6
            } else {
                3
            },
            Panel::Repos => if self.selected_repo_worktree().is_some() || self.selected_repo_submodule().is_some() {
                10
            } else {
                3
            },
            _ => match self.active_diff() {
                Some(d) => d.lines.len() + 1,
                None => 3,
            },
        }
    }

    /// Scrolls the inspector by `delta` lines: the patch where it shows
    /// one, else its list of details.
    pub fn scroll_inspector(&mut self, delta: isize)
        requires
            old(self).sizes_ok(),
            -(isize::MAX / 4) <= delta <= isize::MAX / 4,
            old(self).conflict_detail matches Some(d) ==> small(d.stages.len() + 8),
            old(self).diff matches Some(d) ==> small(d.lines.len() + 8),
            old(self).stash_patch matches Some(d) ==> small(d.lines.len() + 8),
            old(self).log_patch matches Some(d) ==> small(d.lines.len() + 8),
        ensures
            scroll_inspector_post(*old(self), *final(self), delta),
    {
        if self.inspector_uses_patch_scroll() {
            self.scroll_diff(delta);
            return;
        }
        let count = self.inspector_line_count();
        let max = if count > 0 { count - 1 } else { 0 };
        self.inspector_scroll = clamped_add(self.inspector_scroll, delta, max);
    }

    /// The inspector of the open panel shows something worth scrolling.
    pub open spec fn spec_has_scrollable(&self) -> bool {
        match self.panel {
            Panel::Changes => self.selected < self.changes.len(),
            Panel::Stash => self.selected_stash < self.stashes.len(),
            Panel::Branches => self.selected_branch < self.branches.len(),
            Panel::Log => self.selected_log < self.log.len(),
            Panel::Remotes => self.selected_remote < self.remotes.len(),
            Panel::Repos => self.selected_repo < self.worktrees.len() || (self.selected_repo >= self.worktrees.len()
                && self.selected_repo - self.worktrees.len() < self.submodules.len()),
        }
    }

    pub fn inspector_has_scrollable_content(&self) -> (r: bool)
        ensures
            r == self.spec_has_scrollable(),
    {
        match self.panel {
            Panel::Changes => self.selected < self.changes.len(),
            Panel::Stash => self.selected_stash < self.stashes.len(),
            Panel::Branches => self.selected_branch < self.branches.len(),
            Panel::Log => self.selected_log < self.log.len(),
            Panel::Remotes => self.selected_remote < self.remotes.len(),
            Panel::Repos => self.selected_repo_worktree().is_some() || self.selected_repo_submodule().is_some(),
        }
    }

    /// Tab: moves the focus between the rail and the inspector; the rail
    /// keeps it when the inspector has nothing to scroll.
    pub fn toggle_focus(&mut self)
        ensures
            toggle_focus_post(*old(self), *final(self)),
    {
        match self.focus {
            Focus::Diff => {
                self.focus = Focus::Changes;
            },
            Focus::Changes => {
                if self.inspector_has_scrollable_content() {
                    self.focus = Focus::Diff;
                } else {
                    self.status_message = copy_str("Inspector is visible; rail remains active");
                }
            },
        }
    }

    /// Enter: focuses the inspector when it has something to scroll.
    pub fn focus_inspector(&mut self)
        ensures
            focus_inspector_post(*old(self), *final(self)),
    {
        if self.inspector_has_scrollable_content() {
            self.focus = Focus::Diff;
        } else {
            self.focus = Focus::Changes;
            self.status_message = copy_str("Inspector is visible; rail remains active");
        }
    }

    /// Moves the open panel's selection by `delta` rows. Returns whether
    /// the inspector must be reloaded (the selection moved, or another panel
    /// than Changes is open); the inspector then goes back to its top.
    pub fn move_rail_selection(&mut self, delta: isize) -> (reload: bool)
        requires
            old(self).sizes_ok(),
            -(isize::MAX / 4) <= delta <= isize::MAX / 4,
        ensures
            rail_moved(*old(self), *final(self), delta as int),
            old(self).panel == Panel::Changes ==> if old(self).changes.len() == 0 || clamp_int(
                old(self).selected + delta,
                0,
                old(self).changes.len() - 1,
            ) == old(self).selected {
                !reload && *final(self) == *old(self)
            } else {
                reload && *final(self) == (AppState {
                    selected: clamp_int(old(self).selected + delta, 0, old(self).changes.len() - 1) as usize,
                    diff_scroll: 0,
                    inspector_scroll: 0,
                    diff_hunk: 0,
                    ..*old(self)
                })
            },
            old(self).panel != Panel::Changes ==> reload && final(self).diff_scroll == 0
                && final(self).inspector_scroll == 0 && final(self).diff_hunk == 0,
            old(self).panel == Panel::Stash ==> final(self).selected_stash == crate::editor::moved_index(
                old(self).selected_stash as int,
                old(self).stashes.len() as int,
                delta as int,
            ),
            old(self).panel == Panel::Branches ==> final(self).selected_branch == crate::editor::moved_index(
                old(self).selected_branch as int,
                old(self).branches.len() as int,
                delta as int,
            ),
            old(self).panel == Panel::Log ==> final(self).selected_log == crate::editor::moved_index(
                old(self).selected_log as int,
                old(self).log.len() as int,
                delta as int,
            ),
            old(self).panel == Panel::Remotes ==> final(self).selected_remote == crate::editor::moved_index(
                old(self).selected_remote as int,
                old(self).remotes.len() as int,
                delta as int,
            ),
            old(self).panel == Panel::Repos ==> final(self).selected_repo == crate::editor::moved_index(
                old(self).selected_repo as int,
                old(self).worktrees.len() + old(self).submodules.len(),
                delta as int,
            ),
            old(self).panel != Panel::Changes ==> *final(self) == (AppState {
                selected_stash: final(self).selected_stash,
                selected_branch: final(self).selected_branch,
                selected_log: final(self).selected_log,
                selected_remote: final(self).selected_remote,
                selected_repo: final(self).selected_repo,
                diff_scroll: 0,
                inspector_scroll: 0,
                diff_hunk: 0,
                ..*old(self)
            }),
    {
        match self.panel {
            Panel::Changes => {
                if self.changes.len() == 0 {
                    return false;
                }
                let next = clamped_add(self.selected, delta, self.changes.len() - 1);
                if next == self.selected {
                    return false;
                }
                self.selected = next;
                self.reset_inspector_position();
                true
            },
            Panel::Stash => {
                self.selected_stash = crate::editor::move_index(self.selected_stash, self.stashes.len(), delta);
                self.reset_inspector_position();
                true
            },
            Panel::Branches => {
                self.selected_branch = crate::editor::move_index(self.selected_branch, self.branches.len(), delta);
                self.reset_inspector_position();
                true
            },
            Panel::Log => {
                self.selected_log = crate::editor::move_index(self.selected_log, self.log.len(), delta);
                self.reset_inspector_position();
                true
            },
            Panel::Remotes => {
                self.selected_remote = crate::editor::move_index(self.selected_remote, self.remotes.len(), delta);
                self.reset_inspector_position();
                true
            },
            Panel::Repos => {
                let total = self.worktrees.len() + self.submodules.len();
                self.selected_repo = crate::editor::move_index(self.selected_repo, total, delta);
                self.reset_inspector_position();
                true
            },
        }
    }
}

// ---------------------------------------------------------------------------
// Dialogs
// ---------------------------------------------------------------------------

/// A status message to show once the inspector has been reloaded.
#[derive(Debug, Clone, Copy, PartialEq, Eq, Structural)]
pub enum StatusNote {
    /// The whitespace mode of the patch.
    Whitespace,
    /// The number of context lines of the patch.
    Context,
}

/// What is left for the caller to do after a key press: the Git work and
/// file access that the state cannot do itself.
#[derive(Debug, Clone, Copy, PartialEq, Eq, Structural)]
pub enum Effect {
    /// Nothing.
    Done,
    /// Reload the open panel's inspector, then show the note, if any
    /// (`AppState::show_note`).
    Reload(Option<StatusNote>),
    /// Stage the selected or marked changes (`git add`).
    StageSelection,
    /// Unstage the selected or marked changes.
    UnstageSelection,
    /// Stage every unstaged and untracked change.
    StageAllVisible,
    /// Stage the selected hunk.
    StageHunk,
    /// Unstage the selected hunk.
    UnstageHunk,
    /// Fingerprint the changes to discard, then ask for confirmation
    /// (`AppState::confirm_discard`).
    OpenDiscardConfirmation,
    /// Look up the upstream, then ask to fast-forward the current branch.
    ConfirmUpdateCurrentBranch,
    /// Look up the upstream, then ask to push the current branch.
    ConfirmPushCurrentBranch,
    /// Look up the upstream, then ask to start an interactive rebase.
    ConfirmStartInteractiveRebase,
    /// Run `git rebase --continue`.
    RebaseContinue,
    /// Open the selected conflict file in the external editor.
    OpenConflictEditor,
    /// The panel is open: reload the panels and the inspector, then say so
    /// (`opened_message`).
    OpenPanel(Panel),
    /// Refresh the repository, then show `refreshed_message`.
    Refresh,
    /// Run the confirmed operation.
    RunPendingOperation,
    /// Write the commit message file and hand the terminal to `git commit`.
    SubmitCommit,
    /// Write the commit draft and open it in the external editor.
    OpenCommitEditor,
}

/// What is reported after the Git work that `effect` asks for: the
/// refresh message when it succeeded, the error dialog's title when it
/// failed (for the effects that run one Git operation).
pub open spec fn outcome_spec(effect: Effect) -> Option<(Seq<char>, Seq<char>)> {
    match effect {
        Effect::StageSelection => Some(("Staged selected changes"@, "Could not stage changes"@)),
        Effect::UnstageSelection => Some(("Unstaged selected changes"@, "Could not unstage changes"@)),
        Effect::StageAllVisible => Some(("Staged all visible changes"@, "Could not stage all changes"@)),
        Effect::StageHunk => Some(("Staged selected hunk"@, "Could not stage hunk"@)),
        Effect::UnstageHunk => Some(("Unstaged selected hunk"@, "Could not unstage hunk"@)),
        Effect::RebaseContinue => Some(("Continued rebase"@, "Could not continue rebase"@)),
        _ => None,
    }
}

pub fn effect_outcome(effect: Effect) -> (r: Option<(&'static str, &'static str)>)
    ensures
        match outcome_spec(effect) {
            Some((ok, fail)) => r matches Some(p) && p.0@ == ok && p.1@ == fail,
            None => r is None,
        },
{
    match effect {
        Effect::StageSelection => Some(("Staged selected changes", "Could not stage changes")),
        Effect::UnstageSelection => Some(("Unstaged selected changes", "Could not unstage changes")),
        Effect::StageAllVisible => Some(("Staged all visible changes", "Could not stage all changes")),
        Effect::StageHunk => Some(("Staged selected hunk", "Could not stage hunk")),
        Effect::UnstageHunk => Some(("Unstaged selected hunk", "Could not unstage hunk")),
        Effect::RebaseContinue => Some(("Continued rebase", "Could not continue rebase")),
        _ => None,
    }
}

/// The message after the user asked for a refresh.
pub fn refreshed_message() -> (r: String)
    ensures
        r@ == "Refreshed repository status"@,
{
    copy_str("Refreshed repository status")
}

/// The message after a panel was opened.
pub fn opened_message(panel: Panel) -> (r: String)
    ensures
        r@ == "Opened "@ + panel.spec_label(),
{
    concat2("Opened ", panel.label())
}

impl AppState {
    /// Shows an error dialog for a failed Git operation.
    pub fn show_error(&mut self, title: &str, err: &GitError)
        ensures
            *final(self) == (AppState {
                error_title: final(self).error_title,
                error_body: final(self).error_body,
                retry_handoff: None,
                modal: Modal::Error,
                ..*old(self)
            }),
            final(self).error_title@ == title@,
            final(self).error_body@ == err@,
    {
        self.error_title = copy_str(title);
        self.error_body = err.to_string();
        self.retry_handoff = None;
        self.modal = Modal::Error;
    }

    /// Shows an error dialog that offers to retry the command in the
    /// terminal.
    pub fn show_error_with_retry(&mut self, title: &str, err: &GitError, handoff: TerminalHandoff)
        ensures
            *final(self) == (AppState {
                error_title: final(self).error_title,
                error_body: final(self).error_body,
                retry_handoff: Some(handoff),
                modal: Modal::Error,
                ..*old(self)
            }),
            final(self).error_title@ == title@,
            final(self).error_body@ == err@
                + "\n\nPress e to retry in the terminal if authentication or credentials are required."@,
    {
        self.error_title = copy_str(title);
        let mut body = err.to_string();
        push_str(&mut body, "\n\nPress e to retry in the terminal if authentication or credentials are required.");
        self.error_body = body;
        self.retry_handoff = Some(handoff);
        self.modal = Modal::Error;
    }

    /// Asks for confirmation of `operation`.
    pub fn open_confirmation(&mut self, operation: crate::model::PendingOperation, title: String, body: String)
        ensures
            *final(self) == (AppState {
                pending_operation: Some(operation),
                confirm_title: title,
                confirm_body: body,
                modal: Modal::Confirm,
                ..*old(self)
            }),
    {
        self.pending_operation = Some(operation);
        self.confirm_title = title;
        self.confirm_body = body;
        self.modal = Modal::Confirm;
    }

    /// Opens the commit dialog with an empty message, once something is
    /// staged.
    pub fn open_commit(&mut self)
        ensures
            open_commit_post(*old(self), *final(self)),
    {
        if self.staged_count() == 0 {
            self.status_message = copy_str("Stage at least one change before committing");
            return;
        }
        self.commit_summary = String::new();
        self.commit_body = String::new();
        self.commit_body_focus = false;
        self.modal = Modal::Commit;
    }

    /// Hands the terminal to the command of the error dialog's retry.
    pub fn start_retry_handoff(&mut self)
        ensures
            start_retry_handoff_post(*old(self), *final(self)),
    {
        let taken = self.retry_handoff.take();
        match taken {
            None => {
                self.status_message = copy_str("No terminal retry is available");
            },
            Some(h) => {
                let mut msg = copy_str("Starting ");
                push_str(&mut msg, h.label.as_str());
                self.modal = Modal::Closed;
                self.pending_handoff = Some(h);
                self.status_message = msg;
            },
        }
    }

    /// The changes the selection or the marks stand for, in key order.
    pub fn selected_or_marked_changes(&self) -> (r: Vec<crate::git::Change>)
        ensures
            crate::git::changes_view(r@) == crate::git::repo::by_keys(self.changes@, self.spec_keys_for_selection()),
    {
        let keys = self.selected_or_marked_keys();
        let r = crate::git::repo::changes_by_key(self.changes.as_slice(), keys.as_slice());
        proof {
            let t = self.spec_keys_for_selection();
            if self.marked.len() == 0 {
                assert(keys@.map_values(|k: crate::git::ChangeKey| k@) =~= t.map_values(
                    |k: crate::git::ChangeKey| k@,
                ));
            }
            lemma_by_keys_views(self.changes@, keys@, t);
        }
        r
    }

    /// The keys an operation applies to (see `selected_or_marked_keys`).
    pub open spec fn spec_keys_for_selection(&self) -> Seq<crate::git::ChangeKey> {
        if self.marked.len() > 0 {
            self.marked@
        } else if self.selected < self.changes.len() {
            seq![self.changes@[self.selected as int].key]
        } else {
            Seq::empty()
        }
    }
}

/// Looking up keys depends only on their views.
proof fn lemma_by_keys_views(cs: Seq<crate::git::Change>, a: Seq<crate::git::ChangeKey>, b: Seq<crate::git::ChangeKey>)
    requires
        a.map_values(|k: crate::git::ChangeKey| k@) == b.map_values(|k: crate::git::ChangeKey| k@),
    ensures
        crate::git::repo::by_keys(cs, a) == crate::git::repo::by_keys(cs, b),
    decreases a.len(),
{
    assert(a.len() == a.map_values(|k: crate::git::ChangeKey| k@).len());
    assert(b.len() == b.map_values(|k: crate::git::ChangeKey| k@).len());
    if a.len() > 0 {
        assert(a.drop_last().map_values(|k: crate::git::ChangeKey| k@) =~= a.map_values(
            |k: crate::git::ChangeKey| k@,
        ).drop_last());
        assert(b.drop_last().map_values(|k: crate::git::ChangeKey| k@) =~= b.map_values(
            |k: crate::git::ChangeKey| k@,
        ).drop_last());
        lemma_by_keys_views(cs, a.drop_last(), b.drop_last());
        assert(a.map_values(|k: crate::git::ChangeKey| k@)[a.len() - 1] == a.last()@);
        assert(b.map_values(|k: crate::git::ChangeKey| k@)[b.len() - 1] == b.last()@);
    }
}

/// Only the status line changed, to `msg`.
pub open spec fn status_only(old: AppState, new: AppState, msg: Seq<char>) -> bool {
    &&& new.status_message@ == msg
    &&& new == (AppState { status_message: new.status_message, ..old })
}

/// A confirmation dialog opened and nothing else changed.
pub open spec fn confirm_opened(old: AppState, new: AppState) -> bool {
    new == (AppState {
        pending_operation: new.pending_operation,
        confirm_title: new.confirm_title,
        confirm_body: new.confirm_body,
        modal: Modal::Confirm,
        ..old
    })
}

/// The selected change's path when it is a conflict.
pub open spec fn conflict_path(s: AppState) -> Option<Seq<u8>> {
    if s.selected < s.changes.len() && s.changes@[s.selected as int].section == ChangeSection::Conflict {
        Some(s.changes@[s.selected as int].path@)
    } else {
        None
    }
}

fn concat2(a: &str, b: &str) -> (r: String)
    ensures
        r@ == a@ + b@,
{
    let mut r = copy_str(a);
    push_str(&mut r, b);
    r
}

fn concat3(a: &str, b: &str, c: &str) -> (r: String)
    ensures
        r@ == a@ + b@ + c@,
{
    let mut r = copy_str(a);
    push_str(&mut r, b);
    push_str(&mut r, c);
    r
}

impl AppState {
    fn set_status(&mut self, msg: &str)
        ensures
            status_only(*old(self), *final(self), msg@),
    {
        self.status_message = copy_str(msg);
    }

    /// Asks to apply the selected stash.
    pub fn confirm_apply_stash(&mut self)
        ensures
            confirm_apply_stash_post(*old(self), *final(self)),
    {
        if self.panel != Panel::Stash {
            self.set_status("Open Stash to apply a stash");
            return;
        }
        if self.selected_stash >= self.stashes.len() {
            self.set_status("No stash selected");
            return;
        }
        let sel = self.stashes[self.selected_stash].selector.clone();
        let title = concat3("Apply ", sel.as_str(), "?");
        let body = concat2(self.stashes[self.selected_stash].subject.as_str(), "\n\nApplying a stash changes the working tree and may create conflicts.");
        self.open_confirmation(crate::model::PendingOperation::ApplyStash(sel), title, body);
    }

    /// Asks to drop the selected stash.
    pub fn confirm_drop_stash(&mut self)
        ensures
            confirm_drop_stash_post(*old(self), *final(self)),
    {
        if self.panel != Panel::Stash {
            self.set_status("Open Stash to drop a stash");
            return;
        }
        if self.selected_stash >= self.stashes.len() {
            self.set_status("No stash selected");
            return;
        }
        let sel = self.stashes[self.selected_stash].selector.clone();
        let title = concat3("Drop ", sel.as_str(), "?");
        let body = concat2(self.stashes[self.selected_stash].subject.as_str(), "\n\nDropping a stash removes it from the stash list.");
        self.open_confirmation(crate::model::PendingOperation::DropStash(sel), title, body);
    }

    /// Asks to switch to the selected local branch.
    pub fn switch_selected_branch(&mut self)
        ensures
            switch_selected_branch_post(*old(self), *final(self)),
    {
        if self.panel != Panel::Branches {
            self.set_status("Open Branches to switch branches");
            return;
        }
        if self.selected_branch >= self.branches.len() {
            self.set_status("No branch selected");
            return;
        }
        if self.branches[self.selected_branch].remote {
            self.set_status("Remote branches are read-only for now");
            return;
        }
        let name = self.branches[self.selected_branch].name.clone();
        if self.branches[self.selected_branch].current {
            let msg = concat2("Already on ", name.as_str());
            self.status_message = msg;
            return;
        }
        let title = concat3("Switch to ", name.as_str(), "?");
        let body = copy_str("Git will reject the switch if local changes would be overwritten.");
        self.open_confirmation(crate::model::PendingOperation::SwitchBranch(name), title, body);
    }

    /// Asks to fetch the selected remote.
    pub fn confirm_fetch_remote(&mut self)
        ensures
            confirm_fetch_remote_post(*old(self), *final(self)),
    {
        if self.panel != Panel::Remotes {
            self.set_status("Open Remotes to fetch a remote");
            return;
        }
        if self.selected_remote >= self.remotes.len() {
            self.set_status("No remote selected");
            return;
        }
        let name = self.remotes[self.selected_remote].name.clone();
        let title = concat3("Fetch ", name.as_str(), "?");
        let body = copy_str("This contacts the remote and prunes stale remote-tracking refs.");
        self.open_confirmation(crate::model::PendingOperation::FetchRemote(name), title, body);
    }

    /// Asks to remove the work tree selected in the Repos panel.
    pub fn confirm_remove_worktree(&mut self)
        ensures
            confirm_remove_worktree_post(*old(self), *final(self)),
    {
        if self.selected_repo >= self.worktrees.len() {
            self.set_status("Select a worktree to remove");
            return;
        }
        if self.worktrees[self.selected_repo].current {
            self.set_status("Cannot remove the current worktree");
            return;
        }
        let path = crate::git::copy_bytes(&self.worktrees[self.selected_repo].path);
        let shown = crate::text::lossy_text(path.as_slice());
        let title = concat3("Remove worktree ", shown.as_str(), "?");
        let body = copy_str(
            "Git will reject removal if the worktree contains local changes. Force removal is not used.",
        );
        self.open_confirmation(crate::model::PendingOperation::RemoveWorktree(path), title, body);
    }

    /// Asks to sync the URL of the submodule selected in the Repos panel.
    pub fn confirm_sync_submodule(&mut self)
        ensures
            confirm_sync_submodule_post(*old(self), *final(self)),
    {
        if self.selected_repo < self.worktrees.len() || self.selected_repo - self.worktrees.len() >= self.submodules.len() {
            self.set_status("Select a submodule to sync");
            return;
        }
        let index = self.selected_repo - self.worktrees.len();
        let path = crate::git::copy_bytes(&self.submodules[index].path);
        let shown = crate::text::lossy_text(path.as_slice());
        let title = concat3("Sync submodule ", shown.as_str(), "?");
        let body = copy_str("This updates local submodule URL metadata from .gitmodules.");
        self.open_confirmation(crate::model::PendingOperation::SyncSubmodule(path), title, body);
    }

    /// Asks to update the selected submodule from local objects.
    pub fn confirm_update_submodule(&mut self)
        ensures
            confirm_update_submodule_post(*old(self), *final(self)),
    {
        if self.selected_repo < self.worktrees.len() || self.selected_repo - self.worktrees.len() >= self.submodules.len() {
            self.set_status("Select a submodule to update");
            return;
        }
        let index = self.selected_repo - self.worktrees.len();
        let path = crate::git::copy_bytes(&self.submodules[index].path);
        let shown = crate::text::lossy_text(path.as_slice());
        let title = concat3("Update submodule ", shown.as_str(), "?");
        let body = copy_str("This runs submodule update with --no-fetch, so it only uses local objects.");
        self.open_confirmation(crate::model::PendingOperation::UpdateSubmodule(path), title, body);
    }

    /// Asks to stage the selected submodule's recorded commit.
    pub fn confirm_stage_submodule_pointer(&mut self)
        ensures
            confirm_stage_submodule_pointer_post(*old(self), *final(self)),
    {
        if self.selected_repo < self.worktrees.len() || self.selected_repo - self.worktrees.len() >= self.submodules.len() {
            self.set_status("Select a submodule to stage its pointer");
            return;
        }
        let index = self.selected_repo - self.worktrees.len();
        let path = crate::git::copy_bytes(&self.submodules[index].path);
        let shown = crate::text::lossy_text(path.as_slice());
        let title = concat3("Stage submodule pointer ", shown.as_str(), "?");
        let body = copy_str("This stages the superproject's recorded submodule commit.");
        self.open_confirmation(crate::model::PendingOperation::StageSubmodulePointer(path), title, body);
    }

    /// Asks to take our side of the selected conflict.
    pub fn confirm_checkout_ours(&mut self)
        ensures
            confirm_checkout_ours_post(*old(self), *final(self)),
    {
        if self.selected >= self.changes.len() || !self.changes[self.selected].is_conflict() {
            self.set_status("Select a conflict file first");
            return;
        }
        let path = crate::git::copy_bytes(&self.changes[self.selected].path);
        let shown = crate::text::lossy_text(path.as_slice());
        let title = concat3("Use ours for ", shown.as_str(), "?");
        let body = copy_str("This replaces the worktree file with stage 2 for this path. Review before marking resolved.");
        self.open_confirmation(crate::model::PendingOperation::CheckoutOurs(path), title, body);
    }

    /// Asks to take their side of the selected conflict.
    pub fn confirm_checkout_theirs(&mut self)
        ensures
            confirm_checkout_theirs_post(*old(self), *final(self)),
    {
        if self.selected >= self.changes.len() || !self.changes[self.selected].is_conflict() {
            self.set_status("Select a conflict file first");
            return;
        }
        let path = crate::git::copy_bytes(&self.changes[self.selected].path);
        let shown = crate::text::lossy_text(path.as_slice());
        let title = concat3("Use theirs for ", shown.as_str(), "?");
        let body = copy_str("This replaces the worktree file with stage 3 for this path. Review before marking resolved.");
        self.open_confirmation(crate::model::PendingOperation::CheckoutTheirs(path), title, body);
    }

    /// Asks to mark the selected conflict resolved.
    pub fn confirm_mark_resolved(&mut self)
        ensures
            confirm_mark_resolved_post(*old(self), *final(self)),
    {
        if self.selected >= self.changes.len() || !self.changes[self.selected].is_conflict() {
            self.set_status("Select a conflict file first");
            return;
        }
        let path = crate::git::copy_bytes(&self.changes[self.selected].path);
        let shown = crate::text::lossy_text(path.as_slice());
        let title = concat3("Mark ", shown.as_str(), " resolved?");
        let body = copy_str("This stages the file as the conflict resolution.");
        self.open_confirmation(crate::model::PendingOperation::MarkResolved(path), title, body);
    }

    /// Asks to abort the rebase in progress.
    pub fn confirm_rebase_abort(&mut self)
        ensures
            confirm_rebase_abort_post(*old(self), *final(self)),
    {
        if self.rebase_state.is_none() {
            self.set_status("No rebase in progress");
            return;
        }
        let title = copy_str("Abort rebase?");
        let body = copy_str("This returns the branch to the state before the rebase started.");
        self.open_confirmation(crate::model::PendingOperation::RebaseAbort, title, body);
    }

    /// Asks to skip the commit the rebase stopped at.
    pub fn confirm_rebase_skip(&mut self)
        ensures
            confirm_rebase_skip_post(*old(self), *final(self)),
    {
        let current = match &self.rebase_state {
            None => {
                self.set_status("No rebase in progress");
                return;
            },
            Some(r) => match &r.current {
                Some(c) => c.clone(),
                None => copy_str("current commit"),
            },
        };
        let title = concat3("Skip ", current.as_str(), "?");
        let body = copy_str("This drops the current rebase commit and continues with the next command.");
        self.open_confirmation(crate::model::PendingOperation::RebaseSkip, title, body);
    }
}

// ---------------------------------------------------------------------------
// Key presses
// ---------------------------------------------------------------------------

/// The selected or marked changes of `s`.
pub open spec fn selection_changes(s: AppState) -> Seq<crate::git::ChangeView> {
    crate::git::repo::by_keys(s.changes@, s.spec_keys_for_selection())
}

/// Every change of `cs` can be discarded (it is unstaged or untracked).
pub open spec fn all_discardable(cs: Seq<crate::git::ChangeView>) -> bool {
    forall|i: int|
        0 <= i < cs.len() ==> (#[trigger] cs[i]).section == ChangeSection::Unstaged || cs[i].section
            == ChangeSection::Untracked
}

/// Moving the rail by `delta` changes something that the inspector shows.
pub open spec fn rail_moves(s: AppState, delta: int) -> bool {
    s.panel != Panel::Changes || (s.changes.len() > 0 && clamp_int(s.selected + delta, 0, s.changes.len() - 1)
        != s.selected)
}

/// The hunk of the selected change can be staged (`reverse`: unstaged).
pub open spec fn hunk_ready(s: AppState, reverse: bool) -> bool {
    &&& s.panel == Panel::Changes
    &&& s.selected < s.changes.len()
    &&& s.diff matches Some(d) && hunk_disabled_spec(
        s.changes@[s.selected as int].section,
        s.changes@[s.selected as int].kind,
        d.hunks.len() as int,
        d.is_binary,
        d.whitespace,
        s.diff_hunk as int,
        reverse,
    ) is None
}

/// The first change of `changes` that cannot be discarded.
fn first_undiscardable(changes: &Vec<crate::git::Change>) -> (r: Option<usize>)
    ensures
        r is None <==> all_discardable(crate::git::changes_view(changes@)),
        r matches Some(i) ==> i < changes.len() && !(changes@[i as int].section == ChangeSection::Unstaged
            || changes@[i as int].section == ChangeSection::Untracked) && forall|k: int|
            0 <= k < i ==> (#[trigger] changes@[k]).section == ChangeSection::Unstaged || changes@[k].section
                == ChangeSection::Untracked,
{
    let ghost v = crate::git::changes_view(changes@);
    let mut i: usize = 0;
    while i < changes.len()
        invariant
            v == crate::git::changes_view(changes@),
            i <= changes.len(),
            forall|k: int|
                0 <= k < i ==> (#[trigger] changes@[k]).section == ChangeSection::Unstaged || changes@[k].section
                    == ChangeSection::Untracked,
        decreases changes.len() - i,
    {
        let c = &changes[i];
        if !(c.is_unstaged() || c.is_untracked()) {
            assert(v[i as int] == changes@[i as int]@);
            return Some(i);
        }
        i += 1;
    }
    assert forall|k: int| 0 <= k < v.len() implies (#[trigger] v[k]).section == ChangeSection::Unstaged
        || v[k].section == ChangeSection::Untracked by {
        assert(v[k] == changes@[k]@);
    }
    None
}

/// What `toggle_focus` leaves: the state before (`s`) and after (`t`).
pub open spec fn toggle_focus_post(s: AppState, t: AppState) -> bool {
    &&& (s.focus == Focus::Diff ==> t == (AppState { focus: Focus::Changes, ..s }))
    &&& (s.focus == Focus::Changes && s.spec_has_scrollable() ==> t == (AppState {
            focus: Focus::Diff,
            ..s
        }))
    &&& (s.focus == Focus::Changes && !s.spec_has_scrollable() ==> t.status_message@
            == "Inspector is visible; rail remains active"@ && t == (AppState {
            status_message: t.status_message,
            ..s
        }))
}

/// What `focus_inspector` leaves: the state before (`s`) and after (`t`).
pub open spec fn focus_inspector_post(s: AppState, t: AppState) -> bool {
    &&& (s.spec_has_scrollable() ==> t == (AppState { focus: Focus::Diff, ..s }))
    &&& (!s.spec_has_scrollable() ==> t.status_message@ == "Inspector is visible; rail remains active"@
            && t == (AppState {
            focus: Focus::Changes,
            status_message: t.status_message,
            ..s
        }))
}

/// What `confirm_stage_submodule_pointer` leaves: the state before (`s`) and after (`t`).
pub open spec fn confirm_stage_submodule_pointer_post(s: AppState, t: AppState) -> bool {
    &&& (!(s.selected_repo >= s.worktrees.len() && s.selected_repo - s.worktrees.len()
            < s.submodules.len()) ==> status_only(s, t, "Select a submodule to stage its pointer"@))
    &&& (s.selected_repo >= s.worktrees.len() && s.selected_repo - s.worktrees.len()
            < s.submodules.len() ==> {
            let m = s.submodules@[s.selected_repo - s.worktrees.len()];
            &&& confirm_opened(s, t)
            &&& t.pending_operation matches Some(crate::model::PendingOperation::StageSubmodulePointer(p))
                && p@ == m.path@
            &&& t.confirm_title@ == "Stage submodule pointer "@ + crate::text::lossy_chars(m.path@) + "?"@
            &&& t.confirm_body@ == "This stages the superproject's recorded submodule commit."@
        })
}

/// What `confirm_update_submodule` leaves: the state before (`s`) and after (`t`).
pub open spec fn confirm_update_submodule_post(s: AppState, t: AppState) -> bool {
    &&& (!(s.selected_repo >= s.worktrees.len() && s.selected_repo - s.worktrees.len()
            < s.submodules.len()) ==> status_only(s, t, "Select a submodule to update"@))
    &&& (s.selected_repo >= s.worktrees.len() && s.selected_repo - s.worktrees.len()
            < s.submodules.len() ==> {
            let m = s.submodules@[s.selected_repo - s.worktrees.len()];
            &&& confirm_opened(s, t)
            &&& t.pending_operation matches Some(crate::model::PendingOperation::UpdateSubmodule(p))
                && p@ == m.path@
            &&& t.confirm_title@ == "Update submodule "@ + crate::text::lossy_chars(m.path@) + "?"@
            &&& t.confirm_body@ == "This runs submodule update with --no-fetch, so it only uses local objects."@
        })
}

/// What `confirm_remove_worktree` leaves: the state before (`s`) and after (`t`).
pub open spec fn confirm_remove_worktree_post(s: AppState, t: AppState) -> bool {
    &&& (s.selected_repo >= s.worktrees.len() ==> status_only(
            s,
            t,
            "Select a worktree to remove"@,
        ))
    &&& (s.selected_repo < s.worktrees.len() ==> {
            let w = s.worktrees@[s.selected_repo as int];
            if w.current {
                status_only(s, t, "Cannot remove the current worktree"@)
            } else {
                &&& confirm_opened(s, t)
                &&& t.pending_operation matches Some(crate::model::PendingOperation::RemoveWorktree(p))
                    && p@ == w.path@
                &&& t.confirm_title@ == "Remove worktree "@ + crate::text::lossy_chars(w.path@) + "?"@
                &&& t.confirm_body@
                    == "Git will reject removal if the worktree contains local changes. Force removal is not used."@
            }
        })
}

/// What `confirm_mark_resolved` leaves: the state before (`s`) and after (`t`).
pub open spec fn confirm_mark_resolved_post(s: AppState, t: AppState) -> bool {
    &&& (conflict_path(s) is None ==> status_only(s, t, "Select a conflict file first"@))
    &&& (conflict_path(s) matches Some(path) ==> {
            &&& confirm_opened(s, t)
            &&& t.pending_operation matches Some(crate::model::PendingOperation::MarkResolved(p)) && p@
                == path
            &&& t.confirm_title@ == "Mark "@ + crate::text::lossy_chars(path) + " resolved?"@
            &&& t.confirm_body@ == "This stages the file as the conflict resolution."@
        })
}

/// What `confirm_apply_stash` leaves: the state before (`s`) and after (`t`).
pub open spec fn confirm_apply_stash_post(s: AppState, t: AppState) -> bool {
    &&& (s.panel != Panel::Stash ==> status_only(s, t, "Open Stash to apply a stash"@))
    &&& (s.panel == Panel::Stash && s.selected_stash >= s.stashes.len() ==> status_only(
            s,
            t,
            "No stash selected"@,
        ))
    &&& (s.panel == Panel::Stash && s.selected_stash < s.stashes.len() ==> {
            let e = s.stashes@[s.selected_stash as int];
            &&& confirm_opened(s, t)
            &&& t.pending_operation matches Some(crate::model::PendingOperation::ApplyStash(x)) && x@
                == e.selector@
            &&& t.confirm_title@ == "Apply "@ + e.selector@ + "?"@
            &&& t.confirm_body@ == e.subject@
                + "\n\nApplying a stash changes the working tree and may create conflicts."@
        })
}

/// What `confirm_drop_stash` leaves: the state before (`s`) and after (`t`).
pub open spec fn confirm_drop_stash_post(s: AppState, t: AppState) -> bool {
    &&& (s.panel != Panel::Stash ==> status_only(s, t, "Open Stash to drop a stash"@))
    &&& (s.panel == Panel::Stash && s.selected_stash >= s.stashes.len() ==> status_only(
            s,
            t,
            "No stash selected"@,
        ))
    &&& (s.panel == Panel::Stash && s.selected_stash < s.stashes.len() ==> {
            let e = s.stashes@[s.selected_stash as int];
            &&& confirm_opened(s, t)
            &&& t.pending_operation matches Some(crate::model::PendingOperation::DropStash(x)) && x@
                == e.selector@
            &&& t.confirm_title@ == "Drop "@ + e.selector@ + "?"@
            &&& t.confirm_body@ == e.subject@ + "\n\nDropping a stash removes it from the stash list."@
        })
}

/// What `switch_selected_branch` leaves: the state before (`s`) and after (`t`).
pub open spec fn switch_selected_branch_post(s: AppState, t: AppState) -> bool {
    &&& (s.panel != Panel::Branches ==> status_only(
            s,
            t,
            "Open Branches to switch branches"@,
        ))
    &&& (s.panel == Panel::Branches && s.selected_branch >= s.branches.len() ==> status_only(
            s,
            t,
            "No branch selected"@,
        ))
    &&& (s.panel == Panel::Branches && s.selected_branch < s.branches.len() ==> {
            let b = s.branches@[s.selected_branch as int];
            if b.remote {
                status_only(s, t, "Remote branches are read-only for now"@)
            } else if b.current {
                status_only(s, t, "Already on "@ + b.name@)
            } else {
                &&& confirm_opened(s, t)
                &&& t.pending_operation matches Some(crate::model::PendingOperation::SwitchBranch(x))
                    && x@ == b.name@
                &&& t.confirm_title@ == "Switch to "@ + b.name@ + "?"@
                &&& t.confirm_body@ == "Git will reject the switch if local changes would be overwritten."@
            }
        })
}

/// What `confirm_fetch_remote` leaves: the state before (`s`) and after (`t`).
pub open spec fn confirm_fetch_remote_post(s: AppState, t: AppState) -> bool {
    &&& (s.panel != Panel::Remotes ==> status_only(s, t, "Open Remotes to fetch a remote"@))
    &&& (s.panel == Panel::Remotes && s.selected_remote >= s.remotes.len() ==> status_only(
            s,
            t,
            "No remote selected"@,
        ))
    &&& (s.panel == Panel::Remotes && s.selected_remote < s.remotes.len() ==> {
            let r = s.remotes@[s.selected_remote as int];
            &&& confirm_opened(s, t)
            &&& t.pending_operation matches Some(crate::model::PendingOperation::FetchRemote(x)) && x@
                == r.name@
            &&& t.confirm_title@ == "Fetch "@ + r.name@ + "?"@
            &&& t.confirm_body@ == "This contacts the remote and prunes stale remote-tracking refs."@
        })
}

/// What `confirm_sync_submodule` leaves: the state before (`s`) and after (`t`).
pub open spec fn confirm_sync_submodule_post(s: AppState, t: AppState) -> bool {
    &&& (!(s.selected_repo >= s.worktrees.len() && s.selected_repo - s.worktrees.len()
            < s.submodules.len()) ==> status_only(s, t, "Select a submodule to sync"@))
    &&& (s.selected_repo >= s.worktrees.len() && s.selected_repo - s.worktrees.len()
            < s.submodules.len() ==> {
            let m = s.submodules@[s.selected_repo - s.worktrees.len()];
            &&& confirm_opened(s, t)
            &&& t.pending_operation matches Some(crate::model::PendingOperation::SyncSubmodule(p))
                && p@ == m.path@
            &&& t.confirm_title@ == "Sync submodule "@ + crate::text::lossy_chars(m.path@) + "?"@
            &&& t.confirm_body@ == "This updates local submodule URL metadata from .gitmodules."@
        })
}

/// What `confirm_rebase_abort` leaves: the state before (`s`) and after (`t`).
pub open spec fn confirm_rebase_abort_post(s: AppState, t: AppState) -> bool {
    &&& (s.rebase_state is None ==> status_only(s, t, "No rebase in progress"@))
    &&& (s.rebase_state is Some ==> {
            &&& confirm_opened(s, t)
            &&& t.pending_operation matches Some(crate::model::PendingOperation::RebaseAbort)
            &&& t.confirm_title@ == "Abort rebase?"@
            &&& t.confirm_body@ == "This returns the branch to the state before the rebase started."@
        })
}

/// What `confirm_rebase_skip` leaves: the state before (`s`) and after (`t`).
pub open spec fn confirm_rebase_skip_post(s: AppState, t: AppState) -> bool {
    &&& (s.rebase_state is None ==> status_only(s, t, "No rebase in progress"@))
    &&& (s.rebase_state matches Some(r) ==> {
            &&& confirm_opened(s, t)
            &&& t.pending_operation matches Some(crate::model::PendingOperation::RebaseSkip)
            &&& t.confirm_title@ == "Skip "@ + (match r.current {
                Some(c) => c@,
                None => "current commit"@,
            }) + "?"@
            &&& t.confirm_body@
                == "This drops the current rebase commit and continues with the next command."@
        })
}

/// What `confirm_checkout_ours` leaves: the state before (`s`) and after (`t`).
pub open spec fn confirm_checkout_ours_post(s: AppState, t: AppState) -> bool {
    &&& (conflict_path(s) is None ==> status_only(s, t, "Select a conflict file first"@))
    &&& (conflict_path(s) matches Some(path) ==> {
            &&& confirm_opened(s, t)
            &&& t.pending_operation matches Some(crate::model::PendingOperation::CheckoutOurs(p)) && p@
                == path
            &&& t.confirm_title@ == "Use ours for "@ + crate::text::lossy_chars(path) + "?"@
            &&& t.confirm_body@ == "This replaces the worktree file with stage 2 for this path. Review before marking resolved."@
        })
}

/// What `confirm_checkout_theirs` leaves: the state before (`s`) and after (`t`).
pub open spec fn confirm_checkout_theirs_post(s: AppState, t: AppState) -> bool {
    &&& (conflict_path(s) is None ==> status_only(s, t, "Select a conflict file first"@))
    &&& (conflict_path(s) matches Some(path) ==> {
            &&& confirm_opened(s, t)
            &&& t.pending_operation matches Some(crate::model::PendingOperation::CheckoutTheirs(p)) && p@
                == path
            &&& t.confirm_title@ == "Use theirs for "@ + crate::text::lossy_chars(path) + "?"@
            &&& t.confirm_body@ == "This replaces the worktree file with stage 3 for this path. Review before marking resolved."@
        })
}

/// What `open_commit` leaves: the state before (`s`) and after (`t`).
pub open spec fn open_commit_post(s: AppState, t: AppState) -> bool {
    &&& (count_section(s.changes@, ChangeSection::Staged) == 0 ==> t.status_message@
            == "Stage at least one change before committing"@ && t == (AppState {
            status_message: t.status_message,
            ..s
        }))
    &&& (count_section(s.changes@, ChangeSection::Staged) > 0 ==> t.commit_summary@.len() == 0
            && t.commit_body@.len() == 0 && t == (AppState {
            commit_summary: t.commit_summary,
            commit_body: t.commit_body,
            commit_body_focus: false,
            modal: Modal::Commit,
            ..s
        }))
}

/// What `start_retry_handoff` leaves: the state before (`s`) and after (`t`).
pub open spec fn start_retry_handoff_post(s: AppState, t: AppState) -> bool {
    &&& (s.retry_handoff is None ==> t.status_message@ == "No terminal retry is available"@
            && t == (AppState { status_message: t.status_message, ..s }))
    &&& (s.retry_handoff matches Some(h) ==> t.status_message@ == "Starting "@ + h.label@
            && t == (AppState {
            retry_handoff: None,
            pending_handoff: Some(h),
            modal: Modal::Closed,
            status_message: t.status_message,
            ..s
        }))
}

/// What `jump_hunk` leaves: the state before (`s`) and after (`t`).
pub open spec fn jump_hunk_post(s: AppState, t: AppState, delta: isize) -> bool {
    &&& (match s.spec_active_diff() {
            Some(d) if d.hunks.len() > 0 => {
                let next = clamp_int(s.diff_hunk + delta, 0, d.hunks.len() - 1);
                t == (AppState {
                    diff_hunk: next as usize,
                    diff_scroll: d.hunks@[next].start_line,
                    focus: Focus::Diff,
                    ..s
                })
            },
            _ => t == s,
        })
}

/// What `scroll_diff` leaves: the state before (`s`) and after (`t`).
pub open spec fn scroll_diff_post(s: AppState, t: AppState, delta: isize) -> bool {
    &&& (match s.spec_active_diff() {
            Some(d) => {
                let scroll = clamp_int(s.diff_scroll + delta, 0, max_scroll(d.lines.len() as int));
                t == (AppState {
                    diff_scroll: scroll as usize,
                    diff_hunk: hunk_at_scroll(hunk_starts(d), scroll) as usize,
                    ..s
                })
            },
            None => t == s,
        })
}

/// What `scroll_inspector` leaves: the state before (`s`) and after (`t`).
pub open spec fn scroll_inspector_post(s: AppState, t: AppState, delta: isize) -> bool {
    &&& (!s.spec_uses_patch_scroll() ==> t == (AppState {
            inspector_scroll: clamp_int(
                s.inspector_scroll + delta,
                0,
                max_scroll(s.spec_inspector_lines()),
            ) as usize,
            ..s
        }))
    &&& (s.spec_uses_patch_scroll() ==> (s.spec_active_diff() matches Some(d) && {
            let scroll = clamp_int(s.diff_scroll + delta, 0, max_scroll(d.lines.len() as int));
            t == (AppState {
                diff_scroll: scroll as usize,
                diff_hunk: hunk_at_scroll(hunk_starts(d), scroll) as usize,
                ..s
            })
        }))
}

/// What `selection_key` leaves: the state before (`s`) and after (`t`).
pub open spec fn selection_key_post(s: AppState, t: AppState, stage: bool) -> bool {
    &&& t == (AppState { status_message: t.status_message, ..s })
    &&& t.status_message@ == refusal_or(selection_refusal(s, stage), s.status_message@)
}

/// The status message a refused key sets, else the message as it was.
pub open spec fn refusal_or(refusal: Option<Seq<char>>, before: Seq<char>) -> Seq<char> {
    match refusal {
        Some(m) => m,
        None => before,
    }
}

/// Why staging (`stage`) or unstaging the selection is refused, if it is.
pub open spec fn selection_refusal(s: AppState, stage: bool) -> Option<Seq<char>> {
    if s.panel != Panel::Changes {
        Some(
            if stage {
                "Open Changes to stage files"@
            } else {
                "Open Changes to unstage files"@
            },
        )
    } else if selection_changes(s).len() == 0 {
        Some("No change selected"@)
    } else {
        None
    }
}

/// Why staging (or, with `reverse`, unstaging) the selected hunk is
/// refused, if it is.
pub open spec fn hunk_refusal(s: AppState, reverse: bool) -> Option<Seq<char>> {
    if s.panel != Panel::Changes {
        Some(
            if reverse {
                "Open Changes to unstage hunks"@
            } else {
                "Open Changes to stage hunks"@
            },
        )
    } else if s.selected >= s.changes.len() {
        Some("No change selected"@)
    } else {
        match s.diff {
            None => Some("No diff loaded"@),
            Some(d) => match hunk_disabled_spec(
                s.changes@[s.selected as int].section,
                s.changes@[s.selected as int].kind,
                d.hunks.len() as int,
                d.is_binary,
                d.whitespace,
                s.diff_hunk as int,
                reverse,
            ) {
                Some(r) => Some(
                    (if reverse {
                        "U disabled: "@
                    } else {
                        "S disabled: "@
                    }) + r,
                ),
                None => None,
            },
        }
    }
}

/// What `hunk_key` leaves: the state before (`s`) and after (`t`).
pub open spec fn hunk_key_post(s: AppState, t: AppState, reverse: bool) -> bool {
    &&& t == (AppState { focus: Focus::Diff, status_message: t.status_message, ..s })
    &&& t.status_message@ == refusal_or(hunk_refusal(s, reverse), s.status_message@)
}

/// The position of the first change of `cs` that cannot be discarded.
pub open spec fn first_bad(cs: Seq<crate::git::ChangeView>) -> int
    decreases cs.len(),
{
    if cs.len() == 0 {
        0
    } else if !(cs[0].section == ChangeSection::Unstaged || cs[0].section == ChangeSection::Untracked) {
        0
    } else {
        1 + first_bad(cs.drop_first())
    }
}

/// A change's path as shown to the user: `old -> new` for renames.
pub open spec fn shown_path(c: crate::git::ChangeView) -> Seq<char> {
    match c.original_path {
        Some(o) => lossy_chars(o) + " -> "@ + lossy_chars(c.path),
        None => lossy_chars(c.path),
    }
}

/// Why discarding the selection is refused, if it is.
pub open spec fn discard_refusal(s: AppState) -> Option<Seq<char>> {
    let cs = selection_changes(s);
    if s.panel != Panel::Changes {
        Some("Open Changes to discard files"@)
    } else if cs.len() == 0 {
        Some("No change selected"@)
    } else if !all_discardable(cs) {
        let c = cs[first_bad(cs)];
        Some("Cannot discard "@ + shown_path(c) + " from "@ + c.section.spec_label() + "; unstage first if needed"@)
    } else {
        None
    }
}

/// What `discard_key` leaves: the state before (`s`) and after (`t`).
pub open spec fn discard_key_post(s: AppState, t: AppState) -> bool {
    &&& t == (AppState { status_message: t.status_message, ..s })
    &&& t.status_message@ == refusal_or(discard_refusal(s), s.status_message@)
}

proof fn lemma_first_bad(cs: Seq<crate::git::ChangeView>, i: int)
    requires
        0 <= i < cs.len(),
        !(cs[i].section == ChangeSection::Unstaged || cs[i].section == ChangeSection::Untracked),
        forall|k: int|
            0 <= k < i ==> (#[trigger] cs[k]).section == ChangeSection::Unstaged || cs[k].section
                == ChangeSection::Untracked,
    ensures
        first_bad(cs) == i,
    decreases i,
{
    if i > 0 {
        assert(cs[0].section == ChangeSection::Unstaged || cs[0].section == ChangeSection::Untracked);
        assert forall|k: int| 0 <= k < i - 1 implies (#[trigger] cs.drop_first()[k]).section
            == ChangeSection::Unstaged || cs.drop_first()[k].section == ChangeSection::Untracked by {
            assert(cs.drop_first()[k] == cs[k + 1]);
        }
        lemma_first_bad(cs.drop_first(), i - 1);
    }
}

/// What moving up or down leaves: on the rail the selection moves (see
/// `AppState::move_rail_selection`), in the inspector it scrolls.
pub open spec fn vertical_post(s: AppState, t: AppState, rail_delta: int, inspector_delta: isize) -> bool {
    if s.focus == Focus::Changes {
        rail_moved(s, t, rail_delta)
    } else {
        scroll_inspector_post(s, t, inspector_delta)
    }
}

/// What moving the rail selection by `delta` leaves.
pub open spec fn rail_moved(s: AppState, t: AppState, delta: int) -> bool {
    if s.panel == Panel::Changes {
        if s.changes.len() == 0 || clamp_int(s.selected + delta, 0, s.changes.len() - 1) == s.selected {
            t == s
        } else {
            t == (AppState {
                selected: clamp_int(s.selected + delta, 0, s.changes.len() - 1) as usize,
                diff_scroll: 0,
                inspector_scroll: 0,
                diff_hunk: 0,
                ..s
            })
        }
    } else {
        &&& s.panel == Panel::Stash ==> t.selected_stash == crate::editor::moved_index(
            s.selected_stash as int,
            s.stashes.len() as int,
            delta,
        )
        &&& s.panel == Panel::Branches ==> t.selected_branch == crate::editor::moved_index(
            s.selected_branch as int,
            s.branches.len() as int,
            delta,
        )
        &&& s.panel == Panel::Log ==> t.selected_log == crate::editor::moved_index(
            s.selected_log as int,
            s.log.len() as int,
            delta,
        )
        &&& s.panel == Panel::Remotes ==> t.selected_remote == crate::editor::moved_index(
            s.selected_remote as int,
            s.remotes.len() as int,
            delta,
        )
        &&& s.panel == Panel::Repos ==> t.selected_repo == crate::editor::moved_index(
            s.selected_repo as int,
            s.worktrees.len() + s.submodules.len(),
            delta,
        )
        &&& t == (AppState {
            selected_stash: t.selected_stash,
            selected_branch: t.selected_branch,
            selected_log: t.selected_log,
            selected_remote: t.selected_remote,
            selected_repo: t.selected_repo,
            diff_scroll: 0,
            inspector_scroll: 0,
            diff_hunk: 0,
            ..s
        })
    }
}

/// The state with the panel `p` open, the focus on the rail and the
/// inspector at its top.
pub open spec fn panel_opened(s: AppState, p: Panel) -> AppState {
    AppState { panel: p, focus: Focus::Changes, diff_scroll: 0, inspector_scroll: 0, diff_hunk: 0, ..s }
}

/// The state with the focus on the inspector, the diff settings changed
/// and the inspector at its top.
pub open spec fn diff_settings(s: AppState, mode: WhitespaceMode, context: u8) -> AppState {
    AppState {
        focus: Focus::Diff,
        whitespace_mode: mode,
        diff_context: context,
        diff_scroll: 0,
        inspector_scroll: 0,
        diff_hunk: 0,
        ..s
    }
}

/// What a key press leaves when no dialog is open: the state before (`s`)
/// and after (`t`).
pub open spec fn dispatch_post(s: AppState, t: AppState, a: Action) -> bool {
    match a {
        Action::MoveUp => vertical_post(s, t, -1, -1isize),
        Action::MoveDown => vertical_post(s, t, 1, 1isize),
        Action::PageUp => vertical_post(s, t, -10, -12isize),
        Action::PageDown => vertical_post(s, t, 10, 12isize),
        Action::FocusNext => toggle_focus_post(s, t),
        Action::FocusChanges => t == (AppState { focus: Focus::Changes, ..s }),
        Action::FocusDiff => focus_inspector_post(s, t),
        Action::ToggleMark => crate::model::toggle_mark_post(s, t),
        Action::ClearMarks => t.marked.len() == 0 && t.status_message@ == "Cleared marks"@ && t == (AppState {
            marked: t.marked,
            status_message: t.status_message,
            ..s
        }),
        Action::Stage => if s.panel == Panel::Repos {
            confirm_stage_submodule_pointer_post(s, t)
        } else {
            selection_key_post(s, t, true)
        },
        Action::Unstage => selection_key_post(s, t, false),
        Action::StageHunk => hunk_key_post(s, t, false),
        Action::UnstageHunk => if s.panel == Panel::Branches || s.panel == Panel::Remotes {
            if s.changes.len() > 0 {
                status_only(s, t, "Update requires a clean working tree and index"@)
            } else {
                t == s
            }
        } else if s.panel == Panel::Repos {
            confirm_update_submodule_post(s, t)
        } else {
            hunk_key_post(s, t, true)
        },
        Action::StageAllVisible => if s.panel != Panel::Changes {
            status_only(s, t, "Open Changes to stage files"@)
        } else {
            t == s
        },
        Action::Discard => if s.panel == Panel::Repos {
            confirm_remove_worktree_post(s, t)
        } else {
            discard_key_post(s, t)
        },
        Action::ToggleWhitespace => t == diff_settings(s, s.whitespace_mode.spec_next(), s.diff_context),
        Action::IncreaseContext => t == diff_settings(
            s,
            s.whitespace_mode,
            if s.diff_context >= 11 {
                12u8
            } else {
                (s.diff_context + 1) as u8
            },
        ),
        Action::DecreaseContext => t == diff_settings(
            s,
            s.whitespace_mode,
            if s.diff_context <= 2 {
                1u8
            } else {
                (s.diff_context - 1) as u8
            },
        ),
        Action::Commit => open_commit_post(s, t),
        Action::OpenChanges => t == panel_opened(s, Panel::Changes),
        Action::OpenStash => t == panel_opened(s, Panel::Stash),
        Action::OpenBranches => t == panel_opened(s, Panel::Branches),
        Action::OpenLog => t == panel_opened(s, Panel::Log),
        Action::OpenRemotes => t == panel_opened(s, Panel::Remotes),
        Action::OpenRepos => t == panel_opened(s, Panel::Repos),
        Action::ApplyStash => if s.spec_selected_conflict() {
            confirm_mark_resolved_post(s, t)
        } else {
            confirm_apply_stash_post(s, t)
        },
        Action::DropStash => confirm_drop_stash_post(s, t),
        Action::SwitchBranch => switch_selected_branch_post(s, t),
        Action::FetchRemote => confirm_fetch_remote_post(s, t),
        Action::UpdateCurrentBranch => if s.changes.len() > 0 {
            status_only(s, t, "Update requires a clean working tree and index"@)
        } else {
            t == s
        },
        Action::PushCurrentBranch => if (match s.repo.behind {
            Some(b) => b,
            None => 0,
        }) > 0 {
            status_only(s, t, "Push disabled: branch is behind upstream"@)
        } else {
            t == s
        },
        Action::SyncSubmodule => confirm_sync_submodule_post(s, t),
        Action::RebaseContinue => if s.rebase_state is None {
            status_only(s, t, "No rebase in progress"@)
        } else {
            t == s
        },
        Action::RebaseAbort => confirm_rebase_abort_post(s, t),
        Action::RebaseSkip => confirm_rebase_skip_post(s, t),
        Action::ExternalEditor => if s.retry_handoff is Some {
            start_retry_handoff_post(s, t)
        } else if s.spec_selected_conflict() {
            t == s
        } else {
            status_only(s, t, "External editor is available for commit drafts and conflict files"@)
        },
        Action::ChooseOurs => confirm_checkout_ours_post(s, t),
        Action::ChooseTheirs => confirm_checkout_theirs_post(s, t),
        Action::MarkResolved => confirm_mark_resolved_post(s, t),
        Action::StartInteractiveRebase => if s.changes.len() > 0 {
            status_only(s, t, "Interactive rebase requires a clean working tree and index"@)
        } else {
            t == s
        },
        Action::Help => t == (AppState { modal: Modal::Help, ..s }),
        Action::Palette => t.palette_query@.len() == 0 && t == (AppState {
            palette_query: t.palette_query,
            modal: Modal::Palette,
            ..s
        }),
        Action::Quit => t == (AppState { should_quit: true, ..s }),
        Action::NextHunk => jump_hunk_post(s, t, 1isize),
        Action::PrevHunk => jump_hunk_post(s, t, -1isize),
        Action::ScrollDiffUp => scroll_diff_post(s, t, -8isize),
        Action::ScrollDiffDown => scroll_diff_post(s, t, 8isize),
        Action::Close => t == (AppState { focus: Focus::Changes, ..s }),
        _ => t == s,
    }
}

/// The text without its last character, if it has one.
pub open spec fn popped(text: Seq<char>) -> Seq<char> {
    if text.len() > 0 {
        text.drop_last()
    } else {
        text
    }
}

/// What a key press leaves in the command palette.
pub open spec fn palette_post(s: AppState, t: AppState, a: Action) -> bool {
    match a {
        Action::Close | Action::Quit => t == (AppState { modal: Modal::Closed, ..s }),
        Action::Backspace => t.palette_query@ == popped(s.palette_query@) && t == (AppState {
            palette_query: t.palette_query,
            ..s
        }),
        Action::Text(ch) => t.palette_query@ == s.palette_query@.push(ch) && t == (AppState {
            palette_query: t.palette_query,
            ..s
        }),
        Action::Newline | Action::FocusDiff | Action::SubmitCommit => {
            let closed = AppState { modal: Modal::Closed, ..s };
            let found = crate::commands::matching_spec(s.palette_query@);
            if found.len() > 0 {
                match closed.disabled_spec(found[0].id) {
                    Some(reason) => t.status_message@ == found[0].label + " disabled: "@ + reason && t == (AppState {
                        status_message: t.status_message,
                        ..closed
                    }),
                    None => dispatch_post(closed, t, found[0].action),
                }
            } else if crate::text::contains_seq(s.palette_query@, "commit"@) {
                open_commit_post(closed, t)
            } else {
                status_only(closed, t, "No matching command"@)
            }
        },
        _ => t == s,
    }
}

/// What a key press leaves in the commit dialog.
pub open spec fn commit_post(s: AppState, t: AppState, a: Action) -> bool {
    match a {
        Action::Close | Action::Quit => t == (AppState { modal: Modal::Closed, ..s }),
        Action::FocusNext => t == (AppState { commit_body_focus: !s.commit_body_focus, ..s }),
        Action::Backspace => if s.commit_body_focus {
            t.commit_body@ == popped(s.commit_body@) && t == (AppState { commit_body: t.commit_body, ..s })
        } else {
            t.commit_summary@ == popped(s.commit_summary@) && t == (AppState { commit_summary: t.commit_summary, ..s })
        },
        Action::Text(ch) => if s.commit_body_focus {
            t.commit_body@ == s.commit_body@.push(ch) && t == (AppState { commit_body: t.commit_body, ..s })
        } else {
            t.commit_summary@ == s.commit_summary@.push(ch) && t == (AppState { commit_summary: t.commit_summary, ..s })
        },
        Action::Newline | Action::FocusDiff => if s.commit_body_focus {
            t.commit_body@ == s.commit_body@.push('\n') && t == (AppState { commit_body: t.commit_body, ..s })
        } else {
            t == (AppState { commit_body_focus: true, ..s })
        },
        _ => t == s,
    }
}

/// What a key press leaves: the state before (`s`) and after (`t`), by the
/// dialog that is open.
pub open spec fn handle_post(s: AppState, t: AppState, a: Action) -> bool {
    match s.modal {
        Modal::Closed => dispatch_post(s, t, a),
        Modal::Help => match a {
            Action::Quit | Action::Close | Action::Help => t == (AppState { modal: Modal::Closed, ..s }),
            _ => t == s,
        },
        Modal::Error => match a {
            Action::ExternalEditor => start_retry_handoff_post(s, t),
            Action::Quit | Action::Close | Action::Help => t == (AppState { modal: Modal::Closed, ..s }),
            _ => t == s,
        },
        Modal::Palette => palette_post(s, t, a),
        Modal::Commit => commit_post(s, t, a),
        Modal::Confirm => match a {
            Action::Close | Action::Quit => t.pending_discard.len() == 0 && t.status_message@ == "Operation canceled"@
                && t == (AppState {
                pending_discard: t.pending_discard,
                pending_operation: None,
                modal: Modal::Closed,
                status_message: t.status_message,
                ..s
            }),
            _ => t == s,
        },
    }
}

/// What a key press leaves to the caller when no dialog is open.
pub open spec fn closed_effect(s: AppState, a: Action) -> Effect {
    let vertical = |delta_rail: int|
        if s.focus == Focus::Changes && rail_moves(s, delta_rail) {
            Effect::Reload(None)
        } else {
            Effect::Done
        };
    match a {
        Action::MoveUp => vertical(-1),
        Action::MoveDown => vertical(1),
        Action::PageUp => vertical(-10),
        Action::PageDown => vertical(10),
        Action::Stage => if s.panel == Panel::Changes && selection_changes(s).len() > 0 {
            Effect::StageSelection
        } else {
            Effect::Done
        },
        Action::Unstage => if s.panel == Panel::Changes && selection_changes(s).len() > 0 {
            Effect::UnstageSelection
        } else {
            Effect::Done
        },
        Action::StageHunk => if hunk_ready(s, false) {
            Effect::StageHunk
        } else {
            Effect::Done
        },
        Action::UnstageHunk => if s.panel == Panel::Branches || s.panel == Panel::Remotes {
            if s.changes.len() > 0 {
                Effect::Done
            } else {
                Effect::ConfirmUpdateCurrentBranch
            }
        } else if hunk_ready(s, true) {
            Effect::UnstageHunk
        } else {
            Effect::Done
        },
        Action::StageAllVisible => if s.panel == Panel::Changes {
            Effect::StageAllVisible
        } else {
            Effect::Done
        },
        Action::Discard => if s.panel == Panel::Changes && selection_changes(s).len() > 0 && all_discardable(
            selection_changes(s),
        ) {
            Effect::OpenDiscardConfirmation
        } else {
            Effect::Done
        },
        Action::ToggleWhitespace => Effect::Reload(Some(StatusNote::Whitespace)),
        Action::IncreaseContext | Action::DecreaseContext => Effect::Reload(Some(StatusNote::Context)),
        Action::OpenChanges => Effect::OpenPanel(Panel::Changes),
        Action::OpenStash => Effect::OpenPanel(Panel::Stash),
        Action::OpenBranches => Effect::OpenPanel(Panel::Branches),
        Action::OpenLog => Effect::OpenPanel(Panel::Log),
        Action::OpenRemotes => Effect::OpenPanel(Panel::Remotes),
        Action::OpenRepos => Effect::OpenPanel(Panel::Repos),
        Action::UpdateCurrentBranch => if s.changes.len() > 0 {
            Effect::Done
        } else {
            Effect::ConfirmUpdateCurrentBranch
        },
        Action::PushCurrentBranch => if (match s.repo.behind {
            Some(b) => b,
            None => 0,
        }) > 0 {
            Effect::Done
        } else {
            Effect::ConfirmPushCurrentBranch
        },
        Action::RebaseContinue => if s.rebase_state is Some {
            Effect::RebaseContinue
        } else {
            Effect::Done
        },
        Action::ExternalEditor => if s.retry_handoff is None && s.spec_selected_conflict() {
            Effect::OpenConflictEditor
        } else {
            Effect::Done
        },
        Action::StartInteractiveRebase => if s.changes.len() > 0 {
            Effect::Done
        } else {
            Effect::ConfirmStartInteractiveRebase
        },
        Action::Refresh => Effect::Refresh,
        _ => Effect::Done,
    }
}

/// What a key press leaves to the caller.
pub open spec fn handle_effect(s: AppState, a: Action) -> Effect {
    match s.modal {
        Modal::Closed => closed_effect(s, a),
        Modal::Palette => match a {
            Action::Newline | Action::FocusDiff | Action::SubmitCommit => {
                let found = crate::commands::matching_spec(s.palette_query@);
                if found.len() > 0 && s.disabled_spec(found[0].id) is None {
                    closed_effect(s, found[0].action)
                } else {
                    Effect::Done
                }
            },
            _ => Effect::Done,
        },
        Modal::Commit => match a {
            Action::SubmitCommit => Effect::SubmitCommit,
            Action::ExternalEditor => Effect::OpenCommitEditor,
            _ => Effect::Done,
        },
        Modal::Confirm => match a {
            Action::Newline | Action::FocusDiff | Action::SubmitCommit => Effect::RunPendingOperation,
            _ => Effect::Done,
        },
        _ => Effect::Done,
    }
}

/// The state stays within the machine limits that the key handlers need.
pub open spec fn handle_ready(s: AppState) -> bool {
    &&& s.wf()
    &&& s.sizes_ok()
    &&& s.conflict_detail matches Some(d) ==> small(d.stages.len() + 8)
    &&& s.diff matches Some(d) ==> small(d.lines.len() + 8) && small(d.hunks.len() as int)
    &&& s.stash_patch matches Some(d) ==> small(d.lines.len() + 8) && small(d.hunks.len() as int)
    &&& s.log_patch matches Some(d) ==> small(d.lines.len() + 8) && small(d.hunks.len() as int)
}

impl AppState {
    /// Shows the note of a reload.
    pub fn show_note(&mut self, note: StatusNote)
        ensures
            note == StatusNote::Whitespace ==> final(self).status_message@ == "Whitespace mode: "@
                + old(self).whitespace_mode.spec_label(),
            note == StatusNote::Context ==> final(self).status_message@ == "Diff context: "@ + crate::text::decimal(
                old(self).diff_context as nat,
            ),
            *final(self) == (AppState { status_message: final(self).status_message, ..*old(self) }),
    {
        match note {
            StatusNote::Whitespace => {
                self.status_message = concat2("Whitespace mode: ", self.whitespace_mode.label());
            },
            StatusNote::Context => {
                let n = crate::text::decimal_string(self.diff_context as u64);
                self.status_message = concat2("Diff context: ", n.as_str());
            },
        }
    }

    fn hunk_key(&mut self, reverse: bool) -> (e: Effect)
        ensures
            e == (if hunk_ready(*old(self), reverse) {
                if reverse {
                    Effect::UnstageHunk
                } else {
                    Effect::StageHunk
                }
            } else {
                Effect::Done
            }),
            hunk_key_post(*old(self), *final(self), reverse),
    {
        self.focus = Focus::Diff;
        if self.panel != Panel::Changes {
            if reverse {
                self.status_message = copy_str("Open Changes to unstage hunks");
            } else {
                self.status_message = copy_str("Open Changes to stage hunks");
            }
            return Effect::Done;
        }
        if self.selected >= self.changes.len() {
            self.status_message = copy_str("No change selected");
            return Effect::Done;
        }
        let reason = match &self.diff {
            None => {
                self.status_message = copy_str("No diff loaded");
                return Effect::Done;
            },
            Some(d) => hunk_action_disabled_reason(&self.changes[self.selected], d, self.diff_hunk, reverse),
        };
        match reason {
            Some(r) => {
                let prefix = if reverse {
                    "U disabled: "
                } else {
                    "S disabled: "
                };
                self.status_message = concat2(prefix, r.as_str());
                Effect::Done
            },
            None => if reverse {
                Effect::UnstageHunk
            } else {
                Effect::StageHunk
            },
        }
    }

    fn vertical_key(&mut self, rail_delta: isize, inspector_delta: isize) -> (e: Effect)
        requires
            handle_ready(*old(self)),
            -20 <= rail_delta <= 20,
            -20 <= inspector_delta <= 20,
        ensures
            e == (if old(self).focus == Focus::Changes && rail_moves(*old(self), rail_delta as int) {
                Effect::Reload(None)
            } else {
                Effect::Done
            }),
            vertical_post(*old(self), *final(self), rail_delta as int, inspector_delta),
            final(self).wf(),
    {
        match self.focus {
            Focus::Changes => {
                if self.move_rail_selection(rail_delta) {
                    Effect::Reload(None)
                } else {
                    Effect::Done
                }
            },
            Focus::Diff => {
                self.scroll_inspector(inspector_delta);
                Effect::Done
            },
        }
    }

    fn selection_key(&mut self, stage: bool) -> (e: Effect)
        ensures
            e == (if old(self).panel == Panel::Changes && selection_changes(*old(self)).len() > 0 {
                if stage {
                    Effect::StageSelection
                } else {
                    Effect::UnstageSelection
                }
            } else {
                Effect::Done
            }),
            selection_key_post(*old(self), *final(self), stage),
    {
        if self.panel != Panel::Changes {
            if stage {
                self.status_message = copy_str("Open Changes to stage files");
            } else {
                self.status_message = copy_str("Open Changes to unstage files");
            }
            return Effect::Done;
        }
        let changes = self.selected_or_marked_changes();
        if changes.len() == 0 {
            self.status_message = copy_str("No change selected");
            return Effect::Done;
        }
        if stage {
            Effect::StageSelection
        } else {
            Effect::UnstageSelection
        }
    }

    fn discard_key(&mut self) -> (e: Effect)
        ensures
            e == (if old(self).panel == Panel::Changes && selection_changes(*old(self)).len() > 0 && all_discardable(
                selection_changes(*old(self)),
            ) {
                Effect::OpenDiscardConfirmation
            } else {
                Effect::Done
            }),
            discard_key_post(*old(self), *final(self)),
    {
        if self.panel != Panel::Changes {
            self.status_message = copy_str("Open Changes to discard files");
            return Effect::Done;
        }
        let changes = self.selected_or_marked_changes();
        if changes.len() == 0 {
            self.status_message = copy_str("No change selected");
            return Effect::Done;
        }
        match first_undiscardable(&changes) {
            Some(i) => {
                proof {
                    lemma_first_bad(crate::git::changes_view(changes@), i as int);
                }
                let c = &changes[i];
                let mut msg = copy_str("Cannot discard ");
                let shown = c.display_path();
                push_str(&mut msg, shown.as_str());
                push_str(&mut msg, " from ");
                push_str(&mut msg, c.section.label());
                push_str(&mut msg, "; unstage first if needed");
                self.status_message = msg;
                Effect::Done
            },
            None => Effect::OpenDiscardConfirmation,
        }
    }

    /// Carries out a key press when no dialog is open; the Git work and
    /// file access it needs is left to the caller as the returned effect.
    pub fn dispatch(&mut self, action: Action) -> (e: Effect)
        requires
            handle_ready(*old(self)),
        ensures
            e == closed_effect(*old(self), action),
            dispatch_post(*old(self), *final(self), action),
            final(self).wf(),
    {
            match action {
            Action::MoveUp => self.vertical_key(-1, -1),
            Action::MoveDown => self.vertical_key(1, 1),
            Action::PageUp => self.vertical_key(-10, -12),
            Action::PageDown => self.vertical_key(10, 12),
            Action::FocusNext => {
                self.toggle_focus();
                Effect::Done
            },
            Action::FocusChanges => {
                self.focus = Focus::Changes;
                Effect::Done
            },
            Action::FocusDiff => {
                self.focus_inspector();
                Effect::Done
            },
            Action::ToggleMark => {
                self.toggle_mark();
                Effect::Done
            },
            Action::ClearMarks => {
                self.marked = Vec::new();
                self.status_message = copy_str("Cleared marks");
                Effect::Done
            },
            Action::Stage => {
                if self.panel == Panel::Repos {
                    self.confirm_stage_submodule_pointer();
                    Effect::Done
                } else {
                    self.selection_key(true)
                }
            },
            Action::Unstage => self.selection_key(false),
            Action::StageHunk => self.hunk_key(false),
            Action::UnstageHunk => {
                if self.panel == Panel::Branches || self.panel == Panel::Remotes {
                    if self.changes.len() > 0 {
                        self.status_message = copy_str("Update requires a clean working tree and index");
                        Effect::Done
                    } else {
                        Effect::ConfirmUpdateCurrentBranch
                    }
                } else if self.panel == Panel::Repos {
                    self.confirm_update_submodule();
                    Effect::Done
                } else {
                    self.hunk_key(true)
                }
            },
            Action::StageAllVisible => {
                if self.panel != Panel::Changes {
                    self.status_message = copy_str("Open Changes to stage files");
                    Effect::Done
                } else {
                    Effect::StageAllVisible
                }
            },
            Action::Discard => {
                if self.panel == Panel::Repos {
                    self.confirm_remove_worktree();
                    Effect::Done
                } else {
                    self.discard_key()
                }
            },
            Action::ToggleWhitespace => {
                self.focus = Focus::Diff;
                self.whitespace_mode = self.whitespace_mode.next();
                self.reset_inspector_position();
                Effect::Reload(Some(StatusNote::Whitespace))
            },
            Action::IncreaseContext => {
                self.focus = Focus::Diff;
                self.diff_context = if self.diff_context >= 11 {
                    12
                } else {
                    self.diff_context + 1
                };
                self.reset_inspector_position();
                Effect::Reload(Some(StatusNote::Context))
            },
            Action::DecreaseContext => {
                self.focus = Focus::Diff;
                self.diff_context = if self.diff_context <= 2 {
                    1
                } else {
                    self.diff_context - 1
                };
                self.reset_inspector_position();
                Effect::Reload(Some(StatusNote::Context))
            },
            Action::Commit => {
                self.open_commit();
                Effect::Done
            },
            Action::OpenChanges => self.open_panel(Panel::Changes),
            Action::OpenStash => self.open_panel(Panel::Stash),
            Action::OpenBranches => self.open_panel(Panel::Branches),
            Action::OpenLog => self.open_panel(Panel::Log),
            Action::OpenRemotes => self.open_panel(Panel::Remotes),
            Action::OpenRepos => self.open_panel(Panel::Repos),
            Action::ApplyStash => {
                if self.selected_change_is_conflict() {
                    self.confirm_mark_resolved();
                } else {
                    self.confirm_apply_stash();
                }
                Effect::Done
            },
            Action::DropStash => {
                self.confirm_drop_stash();
                Effect::Done
            },
            Action::SwitchBranch => {
                self.switch_selected_branch();
                Effect::Done
            },
            Action::FetchRemote => {
                self.confirm_fetch_remote();
                Effect::Done
            },
            Action::UpdateCurrentBranch => {
                if self.changes.len() > 0 {
                    self.status_message = copy_str("Update requires a clean working tree and index");
                    Effect::Done
                } else {
                    Effect::ConfirmUpdateCurrentBranch
                }
            },
            Action::PushCurrentBranch => {
                let behind = match self.repo.behind {
                    Some(b) => b,
                    None => 0,
                };
                if behind > 0 {
                    self.status_message = copy_str("Push disabled: branch is behind upstream");
                    Effect::Done
                } else {
                    Effect::ConfirmPushCurrentBranch
                }
            },
            Action::SyncSubmodule => {
                self.confirm_sync_submodule();
                Effect::Done
            },
            Action::RebaseContinue => {
                if self.rebase_state.is_none() {
                    self.status_message = copy_str("No rebase in progress");
                    Effect::Done
                } else {
                    Effect::RebaseContinue
                }
            },
            Action::RebaseAbort => {
                self.confirm_rebase_abort();
                Effect::Done
            },
            Action::RebaseSkip => {
                self.confirm_rebase_skip();
                Effect::Done
            },
            Action::ExternalEditor => {
                if self.retry_handoff.is_some() {
                    self.start_retry_handoff();
                    Effect::Done
                } else if self.selected_change_is_conflict() {
                    Effect::OpenConflictEditor
                } else {
                    self.status_message = copy_str(
                        "External editor is available for commit drafts and conflict files",
                    );
                    Effect::Done
                }
            },
            Action::ChooseOurs => {
                self.confirm_checkout_ours();
                Effect::Done
            },
            Action::ChooseTheirs => {
                self.confirm_checkout_theirs();
                Effect::Done
            },
            Action::MarkResolved => {
                self.confirm_mark_resolved();
                Effect::Done
            },
            Action::StartInteractiveRebase => {
                if self.changes.len() > 0 {
                    self.status_message = copy_str("Interactive rebase requires a clean working tree and index");
                    Effect::Done
                } else {
                    Effect::ConfirmStartInteractiveRebase
                }
            },
            Action::Refresh => Effect::Refresh,
            Action::Help => {
                self.modal = Modal::Help;
                Effect::Done
            },
            Action::Palette => {
                self.palette_query = String::new();
                self.modal = Modal::Palette;
                Effect::Done
            },
            Action::Quit => {
                self.should_quit = true;
                Effect::Done
            },
            Action::NextHunk => {
                self.jump_hunk(1);
                Effect::Done
            },
            Action::PrevHunk => {
                self.jump_hunk(-1);
                Effect::Done
            },
            Action::ScrollDiffUp => {
                self.scroll_diff(-8);
                Effect::Done
            },
            Action::ScrollDiffDown => {
                self.scroll_diff(8);
                Effect::Done
            },
            Action::Close => {
                self.focus = Focus::Changes;
                Effect::Done
            },
            _ => Effect::Done,
        }
    }

    /// Opens `panel` with the focus on the rail and the inspector at its
    /// top; the caller reloads the panels and then shows `opened_message`.
    pub fn open_panel(&mut self, panel: Panel) -> (e: Effect)
        ensures
            e == Effect::OpenPanel(panel),
            *final(self) == (AppState {
                panel,
                focus: Focus::Changes,
                diff_scroll: 0,
                inspector_scroll: 0,
                diff_hunk: 0,
                ..*old(self)
            }),
    {
        self.panel = panel;
        self.focus = Focus::Changes;
        self.reset_inspector_position();
        Effect::OpenPanel(panel)
    }

    /// Carries out a key press: in a dialog when one is open, else on the
    /// panels. The Git work and file access it needs is left to the caller
    /// as the returned effect.
    pub fn handle(&mut self, action: Action) -> (e: Effect)
        requires
            handle_ready(*old(self)),
        ensures
            e == handle_effect(*old(self), action),
            handle_post(*old(self), *final(self), action),
            final(self).wf(),
    {
            match self.modal {
            Modal::Closed => self.dispatch(action),
            Modal::Help => {
                match action {
                    Action::Quit | Action::Close | Action::Help => {
                        self.modal = Modal::Closed;
                    },
                    _ => {},
                }
                Effect::Done
            },
            Modal::Error => {
                match action {
                    Action::ExternalEditor => self.start_retry_handoff(),
                    Action::Quit | Action::Close | Action::Help => {
                        self.modal = Modal::Closed;
                    },
                    _ => {},
                }
                Effect::Done
            },
            Modal::Palette => self.handle_palette(action),
            Modal::Commit => self.handle_commit(action),
            Modal::Confirm => {
                match action {
                    Action::Close | Action::Quit => {
                        self.pending_discard = Vec::new();
                        self.pending_operation = None;
                        self.modal = Modal::Closed;
                        self.status_message = copy_str("Operation canceled");
                        Effect::Done
                    },
                    Action::Newline | Action::FocusDiff | Action::SubmitCommit => Effect::RunPendingOperation,
                    _ => Effect::Done,
                }
            },
        }
    }

    fn handle_palette(&mut self, action: Action) -> (e: Effect)
        requires
            handle_ready(*old(self)),
            old(self).modal == Modal::Palette,
        ensures
            e == handle_effect(*old(self), action),
            palette_post(*old(self), *final(self), action),
            final(self).wf(),
    {
            match action {
            Action::Close | Action::Quit => {
                self.modal = Modal::Closed;
                Effect::Done
            },
            Action::Backspace => {
                crate::text::pop_char(&mut self.palette_query);
                Effect::Done
            },
            Action::Text(ch) => {
                crate::text::push_char(&mut self.palette_query, ch);
                Effect::Done
            },
            Action::Newline | Action::FocusDiff | Action::SubmitCommit => {
                let query = self.palette_query.clone();
                self.modal = Modal::Closed;
                match crate::commands::first_matching_command(query.as_str()) {
                    Some(command) => {
                        match self.command_disabled_reason(command.id) {
                            Some(reason) => {
                                let mut msg = copy_str(command.label);
                                push_str(&mut msg, " disabled: ");
                                push_str(&mut msg, reason.as_str());
                                self.status_message = msg;
                                Effect::Done
                            },
                            None => self.dispatch(command.action),
                        }
                    },
                    None => {
                        let q = crate::text::chars_of(query.as_str());
                        let word = crate::text::chars_of("commit");
                        if crate::text::chars_contains(&q, &word) {
                            self.open_commit();
                        } else {
                            self.status_message = copy_str("No matching command");
                        }
                        Effect::Done
                    },
                }
            },
            _ => Effect::Done,
        }
    }

    fn handle_commit(&mut self, action: Action) -> (e: Effect)
        requires
            old(self).modal == Modal::Commit,
        ensures
            e == handle_effect(*old(self), action),
            commit_post(*old(self), *final(self), action),
            final(self).wf() == old(self).wf(),
    {
            match action {
            Action::Close | Action::Quit => {
                self.modal = Modal::Closed;
                Effect::Done
            },
            Action::FocusNext => {
                self.commit_body_focus = !self.commit_body_focus;
                Effect::Done
            },
            Action::Backspace => {
                if self.commit_body_focus {
                    crate::text::pop_char(&mut self.commit_body);
                } else {
                    crate::text::pop_char(&mut self.commit_summary);
                }
                Effect::Done
            },
            Action::Text(ch) => {
                if self.commit_body_focus {
                    crate::text::push_char(&mut self.commit_body, ch);
                } else {
                    crate::text::push_char(&mut self.commit_summary, ch);
                }
                Effect::Done
            },
            Action::Newline | Action::FocusDiff => {
                if self.commit_body_focus {
                    crate::text::push_char(&mut self.commit_body, '\n');
                } else {
                    self.commit_body_focus = true;
                }
                Effect::Done
            },
            Action::SubmitCommit => Effect::SubmitCommit,
            Action::ExternalEditor => Effect::OpenCommitEditor,
            _ => Effect::Done,
        }
    }
}

/// A confirmed operation runs only from the confirmation dialog: no key
/// press elsewhere asks the caller to run it.
pub proof fn lemma_operations_need_confirmation(s: AppState, a: Action)
    ensures
        handle_effect(s, a) == Effect::RunPendingOperation ==> s.modal == Modal::Confirm,
        closed_effect(s, a) != Effect::RunPendingOperation,
{
}

/// The command palette never runs a command that is disabled: submitting
/// a query whose first match is disabled asks the caller for nothing.
pub proof fn lemma_palette_skips_disabled(s: AppState, a: Action)
    requires
        s.modal == Modal::Palette,
        crate::commands::matching_spec(s.palette_query@).len() > 0,
        s.disabled_spec(crate::commands::matching_spec(s.palette_query@)[0].id) is Some,
    ensures
        handle_effect(s, a) == Effect::Done,
{
}

} // verus!
