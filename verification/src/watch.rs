//! Watching the repository for changes: which changed paths matter, how
//! often the fallback timers fire, and what the event loop does when the
//! watcher reports.
use crate::git::repo::{join_path, join_paths};
use crate::action::Action;
use crate::config::WatchMode;
use crate::model::Modal;
use crate::path::{components, parts_view, path_components};
use crate::text::{bytes_eq, copy_str, push_str};
use vstd::prelude::*;

verus! {

/// What the file system watcher reports.
#[derive(Debug, Clone, PartialEq, Eq)]
pub enum WatchEvent {
    /// Something under the watched directories changed.
    Changed,
    /// The watcher stopped working, for this reason.
    Unavailable(String),
}

/// `path` lies at or under `parent`: the components of `parent` begin the
/// components of `path`.
pub open spec fn under(path: Seq<u8>, parent: Seq<u8>) -> bool {
    components(parent).is_prefix_of(components(path))
}

/// `path` lies at or under `parent`, comparing whole components.
pub fn is_under(path: &[u8], parent: &[u8]) -> (r: bool)
    ensures
        r == under(path@, parent@),
{
    let pc = path_components(path);
    let qc = path_components(parent);
    let ghost pv = components(path@);
    let ghost qv = components(parent@);
    assert(pv.len() == pc.len() && qv.len() == qc.len());
    if qc.len() > pc.len() {
        return false;
    }
    let mut i: usize = 0;
    while i < qc.len()
        invariant
            i <= qc.len() <= pc.len(),
            parts_view(pc@) == pv,
            parts_view(qc@) == qv,
            pv == components(path@),
            qv == components(parent@),
            forall|j: int| 0 <= j < i ==> qv[j] == pv[j],
        decreases qc.len() - i,
    {
        proof {
            assert(qv[i as int] == qc@[i as int]@ && pv[i as int] == pc@[i as int]@);
        }
        if !bytes_eq(pc[i].as_slice(), qc[i].as_slice()) {
            proof {
                assert(qv[i as int] != pv[i as int]);
                let sub = pv.subrange(0, qv.len() as int);
                assert(sub[i as int] == pv[i as int]);
            }
            return false;
        }
        i += 1;
    }
    proof {
        assert(qv =~= pv.subrange(0, qv.len() as int));
    }
    true
}

// ---------------------------------------------------------------------------
// The watched directories
// ---------------------------------------------------------------------------

/// A watched directory as given and, where it resolved, as the file system
/// resolves it.
#[derive(Debug, Clone, PartialEq, Eq)]
pub struct WatchPath {
    pub raw: Vec<u8>,
    pub canonical: Option<Vec<u8>>,
}

impl WatchPath {
    pub fn new(raw: Vec<u8>, canonical: Option<Vec<u8>>) -> (w: WatchPath)
        ensures
            w.raw == raw,
            w.canonical == canonical,
    {
        WatchPath { raw, canonical }
    }

    pub open spec fn holds(&self, path: Seq<u8>) -> bool {
        under(path, self.raw@) || (self.canonical matches Some(c) && under(path, c@))
    }

    /// `path` lies under the directory as given or as resolved.
    pub fn contains(&self, path: &[u8]) -> (r: bool)
        ensures
            r == self.holds(path@),
    {
        if is_under(path, self.raw.as_slice()) {
            return true;
        }
        match &self.canonical {
            Some(c) => is_under(path, c.as_slice()),
            None => false,
        }
    }
}

/// The build directory inside the work tree, whose changes are ignored.
pub fn target_dir(root: &[u8]) -> (r: Vec<u8>)
    ensures
        r@ == join_path(root@, "target"@.map_values(|c: char| c as u8)),
{
    let name: [u8; 6] = [116u8, 97u8, 114u8, 103u8, 101u8, 116u8];
    proof {
        reveal_strlit("target");
        assert(name@ =~= "target"@.map_values(|c: char| c as u8));
    }
    join_paths(root, name.as_slice())
}

/// What the watcher looks at: the work tree (without its build
/// directory), the Git directory and the shared Git directory.
#[derive(Debug, Clone, PartialEq, Eq)]
pub struct WatchScope {
    pub root: WatchPath,
    pub target: WatchPath,
    pub git_dir: WatchPath,
    pub common_git_dir: WatchPath,
}

impl WatchScope {
    /// The scope for a repository; `target_canonical` is where the work
    /// tree's `target` directory resolves, if it does.
    pub fn new(
        root: WatchPath,
        target_canonical: Option<Vec<u8>>,
        git_dir: WatchPath,
        common_git_dir: WatchPath,
    ) -> (s: WatchScope)
        ensures
            s.root == root,
            s.target.raw@ == join_path(root.raw@, "target"@.map_values(|c: char| c as u8)),
            s.target.canonical == target_canonical,
            s.git_dir == git_dir,
            s.common_git_dir == common_git_dir,
    {
        let target = WatchPath::new(target_dir(root.raw.as_slice()), target_canonical);
        WatchScope { root, target, git_dir, common_git_dir }
    }

    /// A change at `path` calls for a refresh: it is inside either Git
    /// directory, or inside the work tree but outside its build directory.
    pub open spec fn relevant(&self, path: Seq<u8>) -> bool {
        if self.git_dir.holds(path) || self.common_git_dir.holds(path) {
            true
        } else if self.target.holds(path) {
            false
        } else {
            self.root.holds(path)
        }
    }
}

/// A change at `path` calls for a refresh.
pub fn is_relevant_path(path: &[u8], watched: &WatchScope) -> (r: bool)
    ensures
        r == watched.relevant(path@),
{
    if watched.git_dir.contains(path) || watched.common_git_dir.contains(path) {
        return true;
    }
    if watched.target.contains(path) {
        return false;
    }
    watched.root.contains(path)
}

/// An event calls for a refresh: it names no path, or one that matters.
pub fn is_relevant_event(paths: &[Vec<u8>], watched: &WatchScope) -> (r: bool)
    ensures
        r == (paths@.len() == 0 || exists|i: int| 0 <= i < paths@.len() && watched.relevant(#[trigger] paths@[i]@)),
{
    if paths.len() == 0 {
        return true;
    }
    let mut i: usize = 0;
    while i < paths.len()
        invariant
            i <= paths.len(),
            forall|j: int| 0 <= j < i ==> !watched.relevant(#[trigger] paths@[j]@),
        decreases paths.len() - i,
    {
        if is_relevant_path(paths[i].as_slice(), watched) {
            return true;
        }
        i += 1;
    }
    false
}

// ---------------------------------------------------------------------------
// Timers
// ---------------------------------------------------------------------------

/// The periodic refresh interval used when no watcher runs, in
/// milliseconds: the configured one, else 2.5 s.
pub open spec fn fallback_interval(configured_ms: Option<u64>) -> u64 {
    match configured_ms {
        Some(ms) => ms,
        None => 2500,
    }
}

pub fn refresh_fallback_interval(configured_ms: Option<u64>) -> (r: u64)
    ensures
        r == fallback_interval(configured_ms),
{
    match configured_ms {
        Some(ms) => ms,
        None => 2500,
    }
}

/// How often the polling watcher rescans, in microseconds: half the
/// periodic interval (given in milliseconds), kept between 350 ms and 2 s;
/// 750 ms when no periodic refresh is configured.
pub open spec fn rescan_interval(periodic_ms: Option<u64>) -> int {
    match periodic_ms {
        Some(ms) => {
            let half = ms * 500;
            if half < 350_000 {
                350_000
            } else if half > 2_000_000 {
                2_000_000
            } else {
                half
            }
        },
        None => 750_000,
    }
}

pub fn watcher_interval(periodic_ms: Option<u64>) -> (r: u64)
    ensures
        r == rescan_interval(periodic_ms),
{
    match periodic_ms {
        Some(ms) => {
            if ms >= 4000 {
                2_000_000
            } else if ms < 700 {
                350_000
            } else {
                ms * 500
            }
        },
        None => 750_000,
    }
}

/// No dialog that takes input is open, so a refresh may run.
pub open spec fn refresh_allowed(modal: Modal) -> bool {
    modal == Modal::Closed || modal == Modal::Help || modal == Modal::Error
}

pub fn may_refresh(modal: Modal) -> (r: bool)
    ensures
        r == refresh_allowed(modal),
{
    matches!(modal, Modal::Closed | Modal::Help | Modal::Error)
}

/// Keys are read as typed text (the commit dialog and the palette).
pub fn reads_text(modal: Modal) -> (r: bool)
    ensures
        r == (modal == Modal::Commit || modal == Modal::Palette),
{
    matches!(modal, Modal::Commit | Modal::Palette)
}

// ---------------------------------------------------------------------------
// The refresh schedule of the event loop
// ---------------------------------------------------------------------------

/// One poll of the watcher's channel.
#[derive(Debug, Clone, PartialEq, Eq)]
pub enum WatchPoll {
    /// Nothing arrived.
    Empty,
    /// The watcher reported.
    Event(WatchEvent),
    /// The watcher's channel closed.
    Disconnected,
}

/// What the event loop does after polling the watcher.
#[derive(Debug, Clone, PartialEq, Eq)]
pub enum WatchReaction {
    /// Nothing.
    Idle,
    /// Start a background refresh now; if one is already running, call
    /// `defer`.
    Refresh,
    /// Show this status and drop the watcher; periodic refreshes take over.
    Stop(String),
}

/// The refresh timers of the event loop.
#[derive(Debug, Clone, Copy, PartialEq, Eq, Structural)]
pub struct RefreshSchedule {
    /// The periodic refresh interval in milliseconds, while one runs.
    pub periodic_ms: Option<u64>,
    /// The configured interval.
    pub configured_ms: Option<u64>,
    /// A refresh is owed and waits for a quiet moment.
    pub pending: bool,
}

pub open spec fn unavailable_message(reason: Seq<char>) -> Seq<char> {
    "Filesystem watcher unavailable: "@ + reason
}

impl RefreshSchedule {
    /// At start the configured interval runs, unless the watcher started.
    pub fn new(configured_ms: Option<u64>, watcher_started: bool) -> (s: RefreshSchedule)
        ensures
            s.periodic_ms == (if watcher_started {
                None
            } else {
                configured_ms
            }),
            s.configured_ms == configured_ms,
            !s.pending,
    {
        RefreshSchedule {
            periodic_ms: if watcher_started {
                None
            } else {
                configured_ms
            },
            configured_ms,
            pending: false,
        }
    }

    /// The periodic refresh that runs once the watcher is gone: the one
    /// running, else the fallback.
    pub open spec fn with_fallback(self) -> RefreshSchedule {
        RefreshSchedule {
            periodic_ms: match self.periodic_ms {
                Some(ms) => Some(ms),
                None => Some(fallback_interval(self.configured_ms)),
            },
            ..self
        }
    }

    fn fall_back(&mut self)
        ensures
            *final(self) == old(self).with_fallback(),
    {
        if self.periodic_ms.is_none() {
            self.periodic_ms = Some(refresh_fallback_interval(self.configured_ms));
        }
    }

    /// A turn without a watcher: unless watching is switched off, periodic
    /// refreshes take over.
    pub fn without_watcher(&mut self, mode: WatchMode)
        ensures
            *final(self) == (if mode != WatchMode::Never {
                old(self).with_fallback()
            } else {
                *old(self)
            }),
    {
        if mode != WatchMode::Never {
            self.fall_back();
        }
    }

    /// A refresh could not start because one is running: it is owed.
    pub fn defer(&mut self)
        ensures
            *final(self) == (RefreshSchedule { pending: true, ..*old(self) }),
    {
        self.pending = true;
    }

    /// The owed refresh may be tried now.
    pub fn should_retry(&self, modal: Modal) -> (r: bool)
        ensures
            r == (self.pending && refresh_allowed(modal)),
    {
        self.pending && may_refresh(modal)
    }

    /// The owed refresh started.
    pub fn retried(&mut self)
        ensures
            *final(self) == (RefreshSchedule { pending: false, ..*old(self) }),
    {
        self.pending = false;
    }

    /// The periodic refresh is due `elapsed_ms` after the last one.
    pub fn periodic_due(&self, elapsed_ms: u64, modal: Modal) -> (r: bool)
        ensures
            r == (self.periodic_ms matches Some(i) && elapsed_ms >= i && refresh_allowed(modal)),
    {
        match self.periodic_ms {
            Some(i) => elapsed_ms >= i && may_refresh(modal),
            None => false,
        }
    }

    /// Reacts to one poll of the watcher: a change refreshes now when no
    /// dialog takes input, else it is owed; a failure stops the watcher with
    /// a status and periodic refreshes take over.
    pub fn on_watch_poll(&mut self, poll: WatchPoll, modal: Modal) -> (r: WatchReaction)
        ensures
            poll == WatchPoll::Empty ==> r == WatchReaction::Idle && *final(self) == *old(self),
            poll == WatchPoll::Event(WatchEvent::Changed) ==> (if refresh_allowed(modal) {
                r == WatchReaction::Refresh && *final(self) == *old(self)
            } else {
                r == WatchReaction::Idle && *final(self) == (RefreshSchedule { pending: true, ..*old(self) })
            }),
            poll matches WatchPoll::Event(WatchEvent::Unavailable(reason)) ==> (r matches WatchReaction::Stop(m)
                && m@ == unavailable_message(reason@) && *final(self) == old(self).with_fallback()),
            poll == WatchPoll::Disconnected ==> (r matches WatchReaction::Stop(m) && m@
                == "Filesystem watcher stopped; using periodic refresh"@ && *final(self)
                == old(self).with_fallback()),
    {
        match poll {
            WatchPoll::Empty => WatchReaction::Idle,
            WatchPoll::Event(WatchEvent::Changed) => {
                if may_refresh(modal) {
                    WatchReaction::Refresh
                } else {
                    self.pending = true;
                    WatchReaction::Idle
                }
            },
            WatchPoll::Event(WatchEvent::Unavailable(reason)) => {
                let mut m = copy_str("Filesystem watcher unavailable: ");
                push_str(&mut m, reason.as_str());
                self.fall_back();
                WatchReaction::Stop(m)
            },
            WatchPoll::Disconnected => {
                self.fall_back();
                WatchReaction::Stop(copy_str("Filesystem watcher stopped; using periodic refresh"))
            },
        }
    }
}

/// The status shown when the watcher could not start: only where watching
/// was asked for explicitly.
pub fn start_failure_message(mode: WatchMode, err: &str) -> (r: Option<String>)
    ensures
        mode == WatchMode::Always ==> (r matches Some(m) && m@ == unavailable_message(err@)),
        mode != WatchMode::Always ==> r is None,
{
    if mode == WatchMode::Always {
        let mut m = copy_str("Filesystem watcher unavailable: ");
        push_str(&mut m, err);
        Some(m)
    } else {
        None
    }
}

// ---------------------------------------------------------------------------
// The mouse
// ---------------------------------------------------------------------------

/// The mouse events the interface reacts to.
#[derive(Debug, Clone, Copy, PartialEq, Eq, Structural)]
pub enum MouseKind {
    ScrollUp,
    ScrollDown,
    LeftDown,
    Other,
}

/// One thing a mouse event asks of the interface.
#[derive(Debug, Clone, Copy, PartialEq, Eq, Structural)]
pub enum MouseStep {
    /// Handle this action.
    Act(Action),
    /// Select the rail's visible row (first) in a viewport of this height
    /// (second).
    SelectVisibleRow(usize, usize),
}

/// The width from which the rail and the inspector stand side by side.
pub open spec fn wide(width: u16) -> bool {
    width >= 92
}

/// The pane under column `column` gets the focus, where both are shown.
pub open spec fn mouse_focus(width: u16, column: u16) -> Seq<MouseStep> {
    if !wide(width) {
        Seq::empty()
    } else if column >= 40 {
        seq![MouseStep::Act(Action::FocusDiff)]
    } else {
        seq![MouseStep::Act(Action::FocusChanges)]
    }
}

/// A click on screen row `row` selects the rail row under it (below the
/// two header rows).
pub open spec fn rail_click(height: u16, row: u16) -> Seq<MouseStep> {
    if row >= 2 {
        seq![
            MouseStep::SelectVisibleRow(
                (row - 2) as usize,
                if height >= 2 {
                    (height - 2) as usize
                } else {
                    0usize
                },
            ),
        ]
    } else {
        Seq::empty()
    }
}

/// What a mouse event at (`column`, `row`) of a `width` x `height`
/// terminal asks for: a scroll focuses the pane under it and moves there;
/// a left click focuses the pane under it and, on the rail (or where only
/// the rail is shown), selects the row.
pub open spec fn mouse_plan(kind: MouseKind, width: u16, height: u16, column: u16, row: u16) -> Seq<MouseStep> {
    match kind {
        MouseKind::ScrollUp => mouse_focus(width, column).push(MouseStep::Act(Action::MoveUp)),
        MouseKind::ScrollDown => mouse_focus(width, column).push(MouseStep::Act(Action::MoveDown)),
        MouseKind::LeftDown => if wide(width) && column >= 40 {
            seq![MouseStep::Act(Action::FocusDiff)]
        } else {
            seq![MouseStep::Act(Action::FocusChanges)] + rail_click(height, row)
        },
        MouseKind::Other => Seq::empty(),
    }
}

/// The focus change a scroll at `column` asks for.
pub fn focus_for_mouse(width: u16, column: u16) -> (r: Option<Action>)
    ensures
        mouse_focus(width, column) == match r {
            Some(a) => seq![MouseStep::Act(a)],
            None => Seq::empty(),
        },
{
    if width < 92 {
        None
    } else if column >= 40 {
        Some(Action::FocusDiff)
    } else {
        Some(Action::FocusChanges)
    }
}

/// What a mouse event asks for, in order.
pub fn mouse_steps(kind: MouseKind, width: u16, height: u16, column: u16, row: u16) -> (r: Vec<MouseStep>)
    ensures
        r@ == mouse_plan(kind, width, height, column, row),
{
    let mut r: Vec<MouseStep> = Vec::new();
    match kind {
        MouseKind::ScrollUp | MouseKind::ScrollDown => {
            if let Some(a) = focus_for_mouse(width, column) {
                r.push(MouseStep::Act(a));
            }
            let mv = if kind == MouseKind::ScrollUp {
                Action::MoveUp
            } else {
                Action::MoveDown
            };
            r.push(MouseStep::Act(mv));
        },
        MouseKind::LeftDown => {
            if width >= 92 && column >= 40 {
                r.push(MouseStep::Act(Action::FocusDiff));
            } else {
                r.push(MouseStep::Act(Action::FocusChanges));
                if row >= 2 {
                    let h: usize = if height >= 2 {
                        (height - 2) as usize
                    } else {
                        0
                    };
                    r.push(MouseStep::SelectVisibleRow((row - 2) as usize, h));
                }
            }
        },
        MouseKind::Other => {},
    }
    proof {
        assert(r@ =~= mouse_plan(kind, width, height, column, row));
    }
    r
}

} // verus!
