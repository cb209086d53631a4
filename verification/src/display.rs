//! The text the screen shows: shortened paths and values, the status line
//! and the commit dialog's summary meter and review.
use crate::git::diff::Diff;
use crate::git::explore::{BranchEntry, ConflictStage, RemoteEntry, SubmoduleEntry, WorktreeEntry};
use crate::git::repo::{file_name, path_file_name};
use crate::git::{Change, ChangeSection, DiffTarget};
use crate::operations::text_or;
use crate::model::{count_section, AppState, Focus, Modal, Panel};
use crate::text::{
    chars_of, copy_str, lossy_chars, lossy_text, decimal, decimal_string, line_spans, lines, push_char, push_chars, push_str,
    spans_describe, string_of_range,
};
use vstd::prelude::*;

verus! {

// ---------------------------------------------------------------------------
// Shortening
// ---------------------------------------------------------------------------

pub open spec fn ellipsis() -> Seq<char> {
    seq!['.', '.', '.']
}

/// `t` in at most `max` characters: whole when it fits; else its start and
/// end around `...` (the end gets the extra character), or as much of `...`
/// as fits.
pub open spec fn middle_cut(t: Seq<char>, max: int) -> Seq<char> {
    if t.len() <= max {
        t
    } else if max <= 3 {
        ellipsis().take(max)
    } else {
        let head = (max - 3) / 2;
        let tail = max - 3 - head;
        t.take(head) + ellipsis() + t.subrange(t.len() - tail, t.len() as int)
    }
}

/// `t` in at most `max` characters: whole when it fits, else cut with `>`
/// as its last character (nothing when `max` is below 2).
pub open spec fn end_cut(t: Seq<char>, max: int) -> Seq<char> {
    if t.len() <= max {
        t
    } else if max <= 1 {
        Seq::empty()
    } else {
        t.take(max - 1).push('>')
    }
}

/// Shortens `text` to `max` characters in the middle.
pub fn truncate_middle(text: &str, max: usize) -> (r: String)
    ensures
        r@ == middle_cut(text@, max as int),
{
    let v = chars_of(text);
    if v.len() <= max {
        return copy_str(text);
    }
    let mut r = String::new();
    if max <= 3 {
        let mut i: usize = 0;
        while i < max
            invariant
                i <= max <= 3,
                r@ == ellipsis().take(i as int),
            decreases max - i,
        {
            push_char(&mut r, '.');
            proof {
                assert(ellipsis().take(i + 1) =~= ellipsis().take(i as int).push('.'));
            }
            i += 1;
        }
        return r;
    }
    let head = (max - 3) / 2;
    let tail = max - 3 - head;
    r = string_of_range(&v, 0, head);
    push_char(&mut r, '.');
    push_char(&mut r, '.');
    push_char(&mut r, '.');
    let end = string_of_range(&v, v.len() - tail, v.len());
    push_str(&mut r, end.as_str());
    proof {
        assert(v@.subrange(0, head as int) =~= text@.take(head as int));
        assert(r@ =~= middle_cut(text@, max as int));
    }
    r
}

/// Shortens `text` to `max` characters at its end.
pub fn truncate_end(text: &str, max: usize) -> (r: String)
    ensures
        r@ == end_cut(text@, max as int),
{
    let v = chars_of(text);
    if v.len() <= max {
        return copy_str(text);
    }
    if max <= 1 {
        return String::new();
    }
    let mut r = string_of_range(&v, 0, max - 1);
    push_char(&mut r, '>');
    proof {
        assert(v@.subrange(0, max - 1) =~= text@.take(max - 1));
    }
    r
}

/// A pane's title, marked while the pane has the focus.
pub fn active_title(title: &str, focused: bool) -> (r: String)
    ensures
        r@ == (if focused {
            title@ + " active"@
        } else {
            title@
        }),
{
    let mut r = copy_str(title);
    if focused {
        push_str(&mut r, " active");
    }
    r
}

/// A scroll position as the terminal library takes it: at most `u16::MAX`.
pub fn scroll_offset(value: usize) -> (r: u16)
    ensures
        r == (if value > u16::MAX {
            u16::MAX as int
        } else {
            value as int
        }),
{
    if value > 65535 {
        65535
    } else {
        value as u16
    }
}

/// A label and a value shortened to fit a line `width` wide: the label
/// padded to 11 characters, the value to what is left after 12 (at least
/// 4).
pub fn detail_text(label: &str, value: &str, width: u16) -> (r: (String, String))
    ensures
        r.0@ == label@ + Seq::new(if label@.len() < 11 {
            (11 - label@.len()) as nat
        } else {
            0
        }, |i: int| ' '),
        r.1@ == end_cut(value@, if width >= 16 {
            width - 12
        } else {
            4
        }),
{
    let mut l = copy_str(label);
    let n = chars_of(label).len();
    let pad: usize = if n < 11 {
        11 - n
    } else {
        0
    };
    let ghost start = l@;
    let mut i: usize = 0;
    while i < pad
        invariant
            i <= pad,
            l@ == start + Seq::new(i as nat, |k: int| ' '),
        decreases pad - i,
    {
        push_char(&mut l, ' ');
        proof {
            assert(start + Seq::new((i + 1) as nat, |k: int| ' ') =~= (start + Seq::new(i as nat, |k: int| ' ')).push(
                ' ',
            ));
        }
        i += 1;
    }
    let w: usize = if width >= 16 {
        (width - 12) as usize
    } else {
        4
    };
    (l, truncate_end(value, w))
}

/// How a path is labelled: its last component, else the whole path, as
/// text with invalid UTF-8 replaced.
pub open spec fn label_of(path: Seq<u8>) -> Seq<char> {
    match file_name(path) {
        Some(n) => lossy_chars(n),
        None => lossy_chars(path),
    }
}

pub fn path_label(path: &[u8]) -> (r: String)
    ensures
        r@ == label_of(path@),
{
    match path_file_name(path) {
        Some(name) => lossy_text(name.as_slice()),
        None => lossy_text(path),
    }
}

// ---------------------------------------------------------------------------
// The status line
// ---------------------------------------------------------------------------

/// How many changes are marked, in words.
pub open spec fn mark_text(n: nat) -> Seq<char> {
    if n == 0 {
        "no marks"@
    } else if n == 1 {
        "1 marked"@
    } else {
        decimal(n) + " marked"@
    }
}

/// The key help for the current situation: conflict keys on a conflicted
/// change, rebase keys while a rebase stops, else those of the panel and
/// pane in focus.
pub open spec fn help_text(conflict: bool, rebase: bool, panel: Panel, focus: Focus) -> Seq<char> {
    if conflict {
        "Conflict | 1 ours | 2 theirs | A mark resolved | r refresh"@
    } else if rebase {
        "Rebase | C continue | K skip | Q abort | Enter inspect conflicts"@
    } else {
        match (panel, focus) {
            (Panel::Changes, Focus::Changes) => "Changes | j/k select | Space mark | s stage | u unstage | e edit conflict"@,
            (Panel::Changes, Focus::Diff) => "Diff | j/k scroll | n/p hunks | S stage hunk | U unstage hunk | w/+/- diff"@,
            (Panel::Stash, Focus::Changes) => "Stash | j/k select | Enter patch | A apply | d drop"@,
            (Panel::Stash, Focus::Diff) => "Stash patch | j/k scroll | n/p hunks | Esc rail"@,
            (Panel::Branches, Focus::Changes) => "Branches | j/k select | o switch local | U update ff-only"@,
            (Panel::Branches, Focus::Diff) => "Branch inspector | j/k scroll | o switch | U update | Tab rail"@,
            (Panel::Log, Focus::Changes) => "Log | j/k select | Enter/Tab patch | L log"@,
            (Panel::Log, Focus::Diff) => "Commit patch | j/k scroll | n/p hunks | Esc rail"@,
            (Panel::Remotes, Focus::Changes) => "Remotes | j/k select | f fetch | U update | P push"@,
            (Panel::Remotes, Focus::Diff) => "Remote inspector | j/k scroll | f fetch | U update | P push"@,
            (Panel::Repos, Focus::Changes) => "Repos | j/k select | x remove wt | s stage ptr | y sync | U update"@,
            (Panel::Repos, Focus::Diff) => "Repo inspector | j/k scroll | x remove wt | s stage ptr | y sync | U update"@,
        }
    }
}

pub fn panel_help(conflict: bool, rebase: bool, panel: Panel, focus: Focus) -> (r: &'static str)
    ensures
        r@ == help_text(conflict, rebase, panel, focus),
{
    if conflict {
        "Conflict | 1 ours | 2 theirs | A mark resolved | r refresh"
    } else if rebase {
        "Rebase | C continue | K skip | Q abort | Enter inspect conflicts"
    } else {
        match (panel, focus) {
            (Panel::Changes, Focus::Changes) => "Changes | j/k select | Space mark | s stage | u unstage | e edit conflict",
            (Panel::Changes, Focus::Diff) => "Diff | j/k scroll | n/p hunks | S stage hunk | U unstage hunk | w/+/- diff",
            (Panel::Stash, Focus::Changes) => "Stash | j/k select | Enter patch | A apply | d drop",
            (Panel::Stash, Focus::Diff) => "Stash patch | j/k scroll | n/p hunks | Esc rail",
            (Panel::Branches, Focus::Changes) => "Branches | j/k select | o switch local | U update ff-only",
            (Panel::Branches, Focus::Diff) => "Branch inspector | j/k scroll | o switch | U update | Tab rail",
            (Panel::Log, Focus::Changes) => "Log | j/k select | Enter/Tab patch | L log",
            (Panel::Log, Focus::Diff) => "Commit patch | j/k scroll | n/p hunks | Esc rail",
            (Panel::Remotes, Focus::Changes) => "Remotes | j/k select | f fetch | U update | P push",
            (Panel::Remotes, Focus::Diff) => "Remote inspector | j/k scroll | f fetch | U update | P push",
            (Panel::Repos, Focus::Changes) => "Repos | j/k select | x remove wt | s stage ptr | y sync | U update",
            (Panel::Repos, Focus::Diff) => "Repo inspector | j/k scroll | x remove wt | s stage ptr | y sync | U update",
        }
    }
}

/// The keys that are always listed at the end of the status line.
pub open spec fn critical_keys() -> Seq<char> {
    " | 0 Changes | : commands | ? help | q quit "@
}

/// The status line `width` columns wide: the message, the marks and the
/// key help, shortened to leave room for the fixed keys (at least 12
/// columns), then the fixed keys.
pub open spec fn status_line(message: Seq<char>, marks: nat, help: Seq<char>, width: int) -> Seq<char> {
    let budget = if width >= critical_keys().len() {
        width - critical_keys().len()
    } else {
        0
    };
    let budget = if budget < 12 {
        12
    } else {
        budget
    };
    end_cut(" "@ + message + " | "@ + mark_text(marks) + " | "@ + help, budget) + critical_keys()
}

/// The selected change is a conflict.
pub open spec fn on_conflict(s: AppState) -> bool {
    s.selected < s.changes.len() && s.changes@[s.selected as int].section == ChangeSection::Conflict
}

fn marks_words(n: usize) -> (r: String)
    ensures
        r@ == mark_text(n as nat),
{
    if n == 0 {
        copy_str("no marks")
    } else if n == 1 {
        copy_str("1 marked")
    } else {
        let mut r = decimal_string(n as u64);
        push_str(&mut r, " marked");
        r
    }
}

/// The status line of the state for a terminal `width` columns wide.
pub fn contextual_status(state: &AppState, width: usize) -> (r: String)
    ensures
        r@ == status_line(
            state.status_message@,
            state.marked.len() as nat,
            help_text(on_conflict(*state), state.rebase_state is Some, state.panel, state.focus),
            width as int,
        ),
{
    let conflict = state.selected < state.changes.len() && state.changes[state.selected].is_conflict();
    let help = panel_help(conflict, state.rebase_state.is_some(), state.panel, state.focus);
    let critical = " | 0 Changes | : commands | ? help | q quit ";
    let n = chars_of(critical).len();
    let budget: usize = if width >= n {
        width - n
    } else {
        0
    };
    let budget: usize = if budget < 12 {
        12
    } else {
        budget
    };
    let mut body = copy_str(" ");
    push_str(&mut body, state.status_message.as_str());
    push_str(&mut body, " | ");
    let marks = marks_words(state.marked.len());
    push_str(&mut body, marks.as_str());
    push_str(&mut body, " | ");
    push_str(&mut body, help);
    let mut r = truncate_end(body.as_str(), budget);
    push_str(&mut r, critical);
    r
}

// ---------------------------------------------------------------------------
// The header and the status bar
// ---------------------------------------------------------------------------

/// A panel's tab: its label, in brackets when it is open.
pub open spec fn tab(panel: Panel, open: Panel) -> Seq<char> {
    if panel == open {
        "["@ + panel.spec_label() + "]"@
    } else {
        panel.spec_label()
    }
}

/// The tabs of all panels, in rail order.
pub open spec fn tabs(open: Panel) -> Seq<char> {
    tab(Panel::Changes, open) + " "@ + tab(Panel::Stash, open) + " "@ + tab(Panel::Branches, open) + " "@ + tab(
        Panel::Log,
        open,
    ) + " "@ + tab(Panel::Remotes, open) + " "@ + tab(Panel::Repos, open)
}

pub open spec fn count_text(prefix: Seq<char>, n: Option<u32>) -> Seq<char> {
    match n {
        Some(k) => prefix + decimal(k as nat),
        None => Seq::empty(),
    }
}

/// The start of the header: the repository, its branch, its distance to
/// the upstream and a rebase marker.
pub open spec fn lead_spec(s: AppState) -> Seq<char> {
    " "@ + s.repo.root_label@ + "  "@ + s.repo.branch@ + count_text(" +"@, s.repo.ahead) + count_text(" -"@, s.repo.behind)
        + (if s.rebase_state is Some {
        "  REBASE"@
    } else {
        Seq::empty()
    })
}

/// The section counts of the header.
pub open spec fn counts_spec(s: AppState) -> Seq<char> {
    "  S:"@ + decimal(count_section(s.changes@, ChangeSection::Staged)) + " U:"@ + decimal(
        count_section(s.changes@, ChangeSection::Unstaged),
    ) + " ?:"@ + decimal(count_section(s.changes@, ChangeSection::Untracked)) + " C:"@ + decimal(
        count_section(s.changes@, ChangeSection::Conflict),
    )
}

/// The header line: the repository, its branch and distance to the
/// upstream, a rebase marker, the count of each section and the tabs.
pub open spec fn header_spec(s: AppState) -> Seq<char> {
    lead_spec(s) + counts_spec(s) + "   "@ + tabs(s.panel) + " "@
}

fn push_tab(out: &mut String, panel: Panel, open: Panel)
    ensures
        final(out)@ == old(out)@ + tab(panel, open),
{
    if panel == open {
        push_str(out, "[");
        push_str(out, panel.label());
        push_str(out, "]");
    } else {
        push_str(out, panel.label());
    }
}

fn push_count(out: &mut String, prefix: &str, n: Option<u32>)
    ensures
        final(out)@ == old(out)@ + count_text(prefix@, n),
{
    if let Some(k) = n {
        push_str(out, prefix);
        let d = decimal_string(k as u64);
        push_str(out, d.as_str());
    } else {
        assert(old(out)@ + Seq::<char>::empty() =~= old(out)@);
    }
}

fn tab_bar(open: Panel) -> (r: String)
    ensures
        r@ == tabs(open),
{
    let mut t = String::new();
    push_tab(&mut t, Panel::Changes, open);
    push_str(&mut t, " ");
    push_tab(&mut t, Panel::Stash, open);
    push_str(&mut t, " ");
    push_tab(&mut t, Panel::Branches, open);
    push_str(&mut t, " ");
    push_tab(&mut t, Panel::Log, open);
    push_str(&mut t, " ");
    push_tab(&mut t, Panel::Remotes, open);
    push_str(&mut t, " ");
    push_tab(&mut t, Panel::Repos, open);
    proof {
        assert(t@ =~= tabs(open));
    }
    t
}

fn header_lead(state: &AppState) -> (r: String)
    ensures
        r@ == lead_spec(*state),
{
    let mut t = copy_str(" ");
    push_str(&mut t, state.repo.root_label.as_str());
    push_str(&mut t, "  ");
    push_str(&mut t, state.repo.branch.as_str());
    push_count(&mut t, " +", state.repo.ahead);
    push_count(&mut t, " -", state.repo.behind);
    let ghost before = t@;
    if state.rebase_state.is_some() {
        push_str(&mut t, "  REBASE");
    } else {
        assert(before + Seq::<char>::empty() =~= before);
    }
    proof {
        assert(t@ =~= lead_spec(*state));
    }
    t
}

fn header_counts(state: &AppState) -> (r: String)
    ensures
        r@ == counts_spec(*state),
{
    let (conflicts, staged, unstaged, untracked) = state.section_counts();
    let mut t = copy_str("  S:");
    push_str(&mut t, decimal_string(staged as u64).as_str());
    push_str(&mut t, " U:");
    push_str(&mut t, decimal_string(unstaged as u64).as_str());
    push_str(&mut t, " ?:");
    push_str(&mut t, decimal_string(untracked as u64).as_str());
    push_str(&mut t, " C:");
    push_str(&mut t, decimal_string(conflicts as u64).as_str());
    proof {
        assert(t@ =~= counts_spec(*state));
    }
    t
}

/// The header line of the state.
pub fn header_title(state: &AppState) -> (r: String)
    ensures
        r@ == header_spec(*state),
{
    let mut t = header_lead(state);
    let counts = header_counts(state);
    push_str(&mut t, counts.as_str());
    push_str(&mut t, "   ");
    let bar = tab_bar(state.panel);
    push_str(&mut t, bar.as_str());
    push_str(&mut t, " ");
    t
}

/// The status bar: the status line when no dialog is open, else the keys
/// of the open dialog.
pub open spec fn bar_spec(s: AppState, width: int) -> Seq<char> {
    match s.modal {
        Modal::Closed => status_line(
            s.status_message@,
            s.marked.len() as nat,
            help_text(on_conflict(s), s.rebase_state is Some, s.panel, s.focus),
            width,
        ),
        Modal::Commit => " Commit | Tab field | Enter body/newline | Ctrl+E editor | Ctrl+S commit | Esc cancel "@,
        Modal::Palette => " Command | type query | Enter run | Esc close "@,
        Modal::Confirm => " Confirm operation | Enter confirm | Esc cancel "@,
        Modal::Help => " Esc/q close "@,
        Modal::Error => if s.retry_handoff is Some {
            " Error | e retry in terminal | Esc/q close "@
        } else {
            " Esc/q close "@
        },
    }
}

/// The status bar of the state for a terminal `width` columns wide (before
/// it is cut to the width).
pub fn status_bar(state: &AppState, width: usize) -> (r: String)
    ensures
        r@ == bar_spec(*state, width as int),
{
    match state.modal {
        Modal::Closed => contextual_status(state, width),
        Modal::Commit => copy_str(" Commit | Tab field | Enter body/newline | Ctrl+E editor | Ctrl+S commit | Esc cancel "),
        Modal::Palette => copy_str(" Command | type query | Enter run | Esc close "),
        Modal::Confirm => copy_str(" Confirm operation | Enter confirm | Esc cancel "),
        Modal::Help => copy_str(" Esc/q close "),
        Modal::Error => if state.retry_handoff.is_some() {
            copy_str(" Error | e retry in terminal | Esc/q close ")
        } else {
            copy_str(" Esc/q close ")
        },
    }
}

// ---------------------------------------------------------------------------
// The commit dialog
// ---------------------------------------------------------------------------

/// The length meter under the summary: its length out of 72, or a warning
/// past 72 characters (the second value says which).
pub open spec fn meter_text(len: nat) -> Seq<char> {
    if len > 72 {
        "Warning: summary is "@ + decimal(len) + " chars; keep it near 72"@
    } else {
        decimal(len) + "/72"@
    }
}

pub fn commit_summary_meter(summary: &str) -> (r: (String, bool))
    ensures
        r.0@ == meter_text(summary@.len()),
        r.1 == (summary@.len() > 72),
{
    let n = chars_of(summary).len();
    if n > 72 {
        let mut t = copy_str("Warning: summary is ");
        let d = decimal_string(n as u64);
        push_str(&mut t, d.as_str());
        push_str(&mut t, " chars; keep it near 72");
        (t, true)
    } else {
        let mut t = decimal_string(n as u64);
        push_str(&mut t, "/72");
        (t, false)
    }
}

/// A line of the commit dialog's review of staged changes.
#[derive(Debug, Clone, PartialEq, Eq)]
pub enum ReviewLine {
    /// A note in muted text.
    Note(String),
    /// A staged change: its kind tag padded to two columns and its path.
    Item(String, String),
}

pub enum ReviewLineView {
    Note(Seq<char>),
    Item(Seq<char>, Seq<char>),
}

impl View for ReviewLine {
    type V = ReviewLineView;

    open spec fn view(&self) -> ReviewLineView {
        match self {
            ReviewLine::Note(s) => ReviewLineView::Note(s@),
            ReviewLine::Item(t, p) => ReviewLineView::Item(t@, p@),
        }
    }
}

pub open spec fn review_view(v: Seq<ReviewLine>) -> Seq<ReviewLineView> {
    v.map_values(|l: ReviewLine| l@)
}

/// The staged changes among `cs`, in order.
pub open spec fn staged_of(cs: Seq<Change>) -> Seq<Change> {
    cs.filter(|c: Change| c.section == ChangeSection::Staged)
}

/// The item line of a staged change in a dialog `width` columns wide.
pub open spec fn review_item(c: Change, width: int) -> ReviewLineView {
    let path_width = if width >= 26 {
        width - 18
    } else {
        8
    };
    ReviewLineView::Item(
        c.kind.spec_tag() + Seq::new((3 - c.kind.spec_tag().len()) as nat, |i: int| ' '),
        middle_cut(c.spec_display_path(), path_width),
    )
}

/// The review: "No staged changes", or a heading, the first four staged
/// changes and how many more there are.
pub open spec fn review_lines(cs: Seq<Change>, width: int) -> Seq<ReviewLineView> {
    let staged = staged_of(cs);
    if staged.len() == 0 {
        seq![ReviewLineView::Note("No staged changes"@)]
    } else {
        let shown = staged.take(if staged.len() < 4 {
            staged.len() as int
        } else {
            4
        });
        let items = seq![ReviewLineView::Note("Staged review"@)] + shown.map_values(|c: Change| review_item(c, width));
        if staged.len() > 4 {
            items.push(ReviewLineView::Note("... "@ + decimal((staged.len() - 4) as nat) + " more staged"@))
        } else {
            items
        }
    }
}

fn review_item_line(c: &Change, width: u16) -> (r: ReviewLine)
    ensures
        r@ == review_item(*c, width as int),
{
    let tag = c.kind.tag();
    let mut t = copy_str(tag);
    let tl = chars_of(tag).len();
    proof {
        assert(c.kind.spec_tag().len() <= 2) by {
            reveal_strlit("M");
            reveal_strlit("A");
            reveal_strlit("D");
            reveal_strlit("R");
            reveal_strlit("C");
            reveal_strlit("T");
            reveal_strlit("U");
            reveal_strlit("?");
            reveal_strlit("!");
        }
    }
    let pad: usize = 3 - tl;
    let ghost start = t@;
    let mut i: usize = 0;
    while i < pad
        invariant
            i <= pad,
            t@ == start + Seq::new(i as nat, |k: int| ' '),
        decreases pad - i,
    {
        push_char(&mut t, ' ');
        proof {
            assert(start + Seq::new((i + 1) as nat, |k: int| ' ') =~= (start + Seq::new(i as nat, |k: int| ' ')).push(
                ' ',
            ));
        }
        i += 1;
    }
    let path_width: usize = if width >= 26 {
        (width - 18) as usize
    } else {
        8
    };
    let p = c.display_path();
    ReviewLine::Item(t, truncate_middle(p.as_str(), path_width))
}

fn copy_line(l: &ReviewLine) -> (r: ReviewLine)
    ensures
        r@ == l@,
{
    match l {
        ReviewLine::Note(t) => ReviewLine::Note(copy_str(t.as_str())),
        ReviewLine::Item(t, p) => ReviewLine::Item(copy_str(t.as_str()), copy_str(p.as_str())),
    }
}

/// The commit dialog's review of the staged changes among `changes`.
pub fn commit_review_lines(changes: &Vec<Change>, width: u16) -> (r: Vec<ReviewLine>)
    ensures
        review_view(r@) == review_lines(changes@, width as int),
{
    let ghost staged = staged_of(changes@);
    let ghost pred = |c: Change| c.section == ChangeSection::Staged;
    let mut items: Vec<ReviewLine> = Vec::new();
    let mut count: usize = 0;
    let mut i: usize = 0;
    proof {
        reveal(Seq::filter);
        assert(changes@.take(0) =~= Seq::<Change>::empty());
    }
    while i < changes.len()
        invariant
            i <= changes.len(),
            staged == staged_of(changes@),
            pred == (|c: Change| c.section == ChangeSection::Staged),
            count == changes@.take(i as int).filter(pred).len(),
            count <= i,
            items.len() == if count < 4 {
                count
            } else {
                4
            },
            forall|k: int|
                0 <= k < items.len() ==> (#[trigger] items@[k])@ == review_item(
                    changes@.take(i as int).filter(pred)[k],
                    width as int,
                ),
        decreases changes.len() - i,
    {
        proof {
            assert(changes@.take(i + 1) =~= changes@.take(i as int).push(changes@[i as int]));
            changes@.take(i as int).lemma_filter_push(changes@[i as int], pred);
        }
        if changes[i].is_staged() {
            if count < 4 {
                let line = review_item_line(&changes[i], width);
                items.push(line);
            }
            count += 1;
        }
        i += 1;
    }
    proof {
        assert(changes@.take(changes.len() as int) =~= changes@);
    }
    let mut out: Vec<ReviewLine> = Vec::new();
    if count == 0 {
        out.push(ReviewLine::Note(copy_str("No staged changes")));
        proof {
            assert(review_view(out@) =~= review_lines(changes@, width as int));
        }
        return out;
    }
    out.push(ReviewLine::Note(copy_str("Staged review")));
    let mut k: usize = 0;
    while k < items.len()
        invariant
            k <= items.len(),
            out.len() == k + 1,
            out@[0]@ == ReviewLineView::Note("Staged review"@),
            forall|j: int| 0 <= j < k ==> (#[trigger] out@[j + 1])@ == items@[j]@,
        decreases items.len() - k,
    {
        out.push(copy_line(&items[k]));
        k += 1;
    }
    if count > 4 {
        let mut t = copy_str("... ");
        let d = decimal_string((count - 4) as u64);
        push_str(&mut t, d.as_str());
        push_str(&mut t, " more staged");
        out.push(ReviewLine::Note(t));
    }
    proof {
        let shown = staged.take(
            if staged.len() < 4 {
                staged.len() as int
            } else {
                4
            },
        );
        let items_v = seq![ReviewLineView::Note("Staged review"@)] + shown.map_values(
            |c: Change| review_item(c, width as int),
        );
        assert forall|j: int| 0 <= j < items_v.len() implies review_view(out@)[j] == items_v[j] by {
            if j > 0 {
                assert(out@[(j - 1) + 1]@ == items@[j - 1]@);
            }
        }
        assert(review_view(out@) =~= review_lines(changes@, width as int));
    }
    out
}

// ---------------------------------------------------------------------------
// Long texts in dialogs
// ---------------------------------------------------------------------------

/// The first `limit` lines of `text`, and whether more were left out.
pub fn limited_body_lines(text: &str, limit: usize) -> (r: (Vec<String>, bool))
    ensures
        r.0@.map_values(|s: String| s@) == lines(text@).take(if lines(text@).len() < limit {
            lines(text@).len() as int
        } else {
            limit as int
        }),
        r.1 == (lines(text@).len() > limit),
{
    let v = chars_of(text);
    let spans = line_spans(&v);
    let ghost ls = lines(text@);
    let n: usize = if spans.len() < limit {
        spans.len()
    } else {
        limit
    };
    let mut out: Vec<String> = Vec::new();
    let mut i: usize = 0;
    while i < n
        invariant
            i <= n <= spans.len(),
            v@ == text@,
            ls == lines(text@),
            spans_describe(v@, spans@, ls),
            out@.map_values(|s: String| s@) == ls.take(i as int),
        decreases n - i,
    {
        let (a, b) = spans[i];
        proof {
            assert(spans@[i as int].0 <= spans@[i as int].1 <= v@.len());
        }
        let line = string_of_range(&v, a, b);
        let ghost before = out@;
        out.push(line);
        proof {
            assert(v@.subrange(a as int, b as int) == ls[i as int]);
            assert(out@.map_values(|s: String| s@) =~= before.map_values(|s: String| s@).push(ls[i as int]));
            assert(ls.take(i + 1) =~= ls.take(i as int).push(ls[i as int]));
        }
        i += 1;
    }
    (out, spans.len() > limit)
}

// ---------------------------------------------------------------------------
// Inspector details and rail rows
// ---------------------------------------------------------------------------

/// The labelled values of an inspector, as text.
pub open spec fn details_view(v: Seq<(&'static str, String)>) -> Seq<(Seq<char>, Seq<char>)> {
    v.map_values(|p: (&'static str, String)| (p.0@, p.1@))
}

pub open spec fn yes_no(b: bool) -> Seq<char> {
    if b {
        "yes"@
    } else {
        "no"@
    }
}

fn yes_no_text(b: bool) -> (r: String)
    ensures
        r@ == yes_no(b),
{
    if b {
        copy_str("yes")
    } else {
        copy_str("no")
    }
}

fn text_or_default(o: &Option<String>, default: &str) -> (r: String)
    ensures
        r@ == text_or(*o, default@),
{
    match o {
        Some(t) => copy_str(t.as_str()),
        None => copy_str(default),
    }
}

/// The Repos inspector's details of a work tree.
pub open spec fn worktree_details_spec(w: WorktreeEntry) -> Seq<(Seq<char>, Seq<char>)> {
    seq![
        ("type"@, "worktree"@),
        ("current"@, yes_no(w.current)),
        ("branch"@, text_or(w.branch, "none"@)),
        ("head"@, text_or(w.head, "unknown"@)),
        ("detached"@, yes_no(w.detached)),
        ("bare"@, yes_no(w.bare)),
        ("locked"@, text_or(w.locked, "no"@)),
        ("prunable"@, text_or(w.prunable, "no"@)),
    ]
}

pub fn worktree_details(w: &WorktreeEntry) -> (r: Vec<(&'static str, String)>)
    ensures
        details_view(r@) == worktree_details_spec(*w),
{
    let mut r: Vec<(&'static str, String)> = Vec::new();
    r.push(("type", copy_str("worktree")));
    r.push(("current", yes_no_text(w.current)));
    r.push(("branch", text_or_default(&w.branch, "none")));
    r.push(("head", text_or_default(&w.head, "unknown")));
    r.push(("detached", yes_no_text(w.detached)));
    r.push(("bare", yes_no_text(w.bare)));
    r.push(("locked", text_or_default(&w.locked, "no")));
    r.push(("prunable", text_or_default(&w.prunable, "no")));
    proof {
        assert(details_view(r@) =~= worktree_details_spec(*w));
    }
    r
}

/// The Repos inspector's details of a submodule.
pub open spec fn submodule_details_spec(m: SubmoduleEntry) -> Seq<(Seq<char>, Seq<char>)> {
    seq![
        ("type"@, "submodule"@),
        ("name"@, m.name@),
        ("url"@, text_or(m.url, "none"@)),
        ("initialized"@, yes_no(m.initialized)),
        ("dirty"@, yes_no(m.dirty)),
        ("recorded"@, text_or(m.recorded_oid, "unknown"@)),
        ("checkout"@, text_or(m.checked_out_oid, "unknown"@)),
    ]
}

pub fn submodule_details(m: &SubmoduleEntry) -> (r: Vec<(&'static str, String)>)
    ensures
        details_view(r@) == submodule_details_spec(*m),
{
    let mut r: Vec<(&'static str, String)> = Vec::new();
    r.push(("type", copy_str("submodule")));
    r.push(("name", copy_str(m.name.as_str())));
    r.push(("url", text_or_default(&m.url, "none")));
    r.push(("initialized", yes_no_text(m.initialized)));
    r.push(("dirty", yes_no_text(m.dirty)));
    r.push(("recorded", text_or_default(&m.recorded_oid, "unknown")));
    r.push(("checkout", text_or_default(&m.checked_out_oid, "unknown")));
    proof {
        assert(details_view(r@) =~= submodule_details_spec(*m));
    }
    r
}

/// The Branch inspector's details of a branch.
pub open spec fn branch_details_spec(b: BranchEntry) -> Seq<(Seq<char>, Seq<char>)> {
    seq![
        ("kind"@, if b.remote {
            "remote"@
        } else {
            "local"@
        }),
        ("current"@, yes_no(b.current)),
        ("head"@, b.short_oid@),
        ("upstream"@, text_or(b.upstream, "none"@)),
        ("full ref"@, b.full_ref@),
        ("refs"@, if b.current {
            "HEAD"@
        } else {
            "none"@
        }),
    ]
}

pub fn branch_details(b: &BranchEntry) -> (r: Vec<(&'static str, String)>)
    ensures
        details_view(r@) == branch_details_spec(*b),
{
    let mut r: Vec<(&'static str, String)> = Vec::new();
    r.push((
        "kind",
        if b.remote {
            copy_str("remote")
        } else {
            copy_str("local")
        },
    ));
    r.push(("current", yes_no_text(b.current)));
    r.push(("head", copy_str(b.short_oid.as_str())));
    r.push(("upstream", text_or_default(&b.upstream, "none")));
    r.push(("full ref", copy_str(b.full_ref.as_str())));
    r.push((
        "refs",
        if b.current {
            copy_str("HEAD")
        } else {
            copy_str("none")
        },
    ));
    proof {
        assert(details_view(r@) =~= branch_details_spec(*b));
    }
    r
}

/// The Remote inspector's details of a remote.
pub open spec fn remote_details_spec(m: RemoteEntry) -> Seq<(Seq<char>, Seq<char>)> {
    seq![("fetch"@, text_or(m.fetch_url, "none"@)), ("push"@, text_or(m.push_url, "none"@))]
}

pub fn remote_details(m: &RemoteEntry) -> (r: Vec<(&'static str, String)>)
    ensures
        details_view(r@) == remote_details_spec(*m),
{
    let mut r: Vec<(&'static str, String)> = Vec::new();
    r.push(("fetch", text_or_default(&m.fetch_url, "none")));
    r.push(("push", text_or_default(&m.push_url, "none")));
    proof {
        assert(details_view(r@) =~= remote_details_spec(*m));
    }
    r
}

/// A width less `n`, but at least `min`.
pub open spec fn room(width: int, n: int, min: int) -> int {
    if width - n > min {
        width - n
    } else {
        min
    }
}

/// The Repos rail row of a work tree in a rail `width` columns wide: the
/// current-tree marker, its directory name and its branch.
pub open spec fn worktree_row_spec(w: WorktreeEntry, width: int) -> (Seq<char>, Seq<char>, Seq<char>) {
    (
        if w.current {
            "* "@
        } else {
            "  "@
        },
        middle_cut(label_of(w.path@), room(width, 16, 8)),
        " "@ + end_cut(
            text_or(
                w.branch,
                if w.detached {
                    "detached"@
                } else {
                    "unknown"@
                },
            ),
            12,
        ),
    )
}

pub fn worktree_row(w: &WorktreeEntry, width: u16) -> (r: (String, String, String))
    ensures
        (r.0@, r.1@, r.2@) == worktree_row_spec(*w, width as int),
{
    let marker = if w.current {
        copy_str("* ")
    } else {
        copy_str("  ")
    };
    let label = path_label(w.path.as_slice());
    let path_room: usize = if width > 24 {
        (width - 16) as usize
    } else {
        8
    };
    let path = truncate_middle(label.as_str(), path_room);
    let branch = text_or_default(&w.branch, if w.detached {
        "detached"
    } else {
        "unknown"
    });
    let mut tail = copy_str(" ");
    let cut = truncate_end(branch.as_str(), 12);
    push_str(&mut tail, cut.as_str());
    (marker, path, tail)
}

/// The Repos rail row of a submodule: its path and its state.
pub open spec fn submodule_row_spec(m: SubmoduleEntry, width: int) -> (Seq<char>, Seq<char>) {
    (
        middle_cut(lossy_chars(m.path@), room(width, 10, 8)),
        if !m.initialized {
            " uninit"@
        } else if m.dirty {
            " dirty"@
        } else {
            " clean"@
        },
    )
}

pub fn submodule_row(m: &SubmoduleEntry, width: u16) -> (r: (String, String))
    ensures
        (r.0@, r.1@) == submodule_row_spec(*m, width as int),
{
    let shown = lossy_text(m.path.as_slice());
    let path_room: usize = if width > 18 {
        (width - 10) as usize
    } else {
        8
    };
    let state = if !m.initialized {
        copy_str(" uninit")
    } else if m.dirty {
        copy_str(" dirty")
    } else {
        copy_str(" clean")
    };
    (truncate_middle(shown.as_str(), path_room), state)
}

/// The Conflict inspector's title: the selected change's path cut to 42
/// characters, when a change is selected.
pub open spec fn conflict_title_spec(change: Option<Change>) -> Seq<char> {
    match change {
        Some(c) => "Conflict "@ + middle_cut(c.spec_display_path(), 42),
        None => "Conflict"@,
    }
}

pub fn conflict_title(change: Option<&Change>) -> (r: String)
    ensures
        r@ == conflict_title_spec(
            match change {
                Some(c) => Some(*c),
                None => None,
            },
        ),
{
    match change {
        Some(c) => {
            let mut r = copy_str("Conflict ");
            let path = c.display_path();
            let cut = truncate_middle(path.as_str(), 42);
            push_str(&mut r, cut.as_str());
            r
        },
        None => copy_str("Conflict"),
    }
}

/// The name of a conflict stage, padded to 8 characters.
pub open spec fn stage_label(stage: u8) -> Seq<char> {
    if stage == 1 {
        "base    "@
    } else if stage == 2 {
        "ours    "@
    } else if stage == 3 {
        "theirs  "@
    } else {
        "stage   "@
    }
}

/// A row of the Conflict inspector: the stage's name, its object id cut to
/// 12 characters, and its mode.
pub open spec fn conflict_stage_row_spec(s: ConflictStage) -> (Seq<char>, Seq<char>, Seq<char>) {
    (stage_label(s.stage), end_cut(s.oid@, 12), " "@ + s.mode@)
}

pub fn conflict_stage_row(s: &ConflictStage) -> (r: (String, String, String))
    ensures
        (r.0@, r.1@, r.2@) == conflict_stage_row_spec(*s),
{
    let label = if s.stage == 1 {
        copy_str("base    ")
    } else if s.stage == 2 {
        copy_str("ours    ")
    } else if s.stage == 3 {
        copy_str("theirs  ")
    } else {
        copy_str("stage   ")
    };
    let mut mode = copy_str(" ");
    push_str(&mut mode, s.mode.as_str());
    (label, truncate_end(s.oid.as_str(), 12), mode)
}

/// The first line of a patch inspector: what the patch compares, the
/// selected hunk, the line counts, the diff settings, and the selected
/// hunk's header cut to what is left of `width`.
pub open spec fn patch_summary_spec(d: Diff, hunk: int, width: int) -> (Seq<char>, Seq<char>, Seq<char>, Seq<char>, Seq<char>) {
    (
        (if d.target == DiffTarget::Staged {
            "staged"@
        } else {
            "unstaged"@
        }) + (if d.is_binary {
            " binary"@
        } else {
            Seq::empty()
        }) + "  "@,
        (if d.hunks.len() == 0 {
            "no hunks"@
        } else {
            "hunk "@ + decimal((if hunk < usize::MAX {
                hunk + 1
            } else {
                hunk
            }) as nat) + "/"@ + decimal(d.hunks.len() as nat)
        }) + "  "@,
        "+"@ + decimal(d.additions as nat) + " -"@ + decimal(d.deletions as nat) + "  "@,
        "ctx:"@ + decimal(d.context_lines as nat) + " ws:"@ + d.whitespace.spec_label() + "  "@,
        if 0 <= hunk < d.hunks.len() {
            end_cut(
                d.hunks@[hunk].header@,
                if width > 42 {
                    width - 42
                } else {
                    0
                },
            )
        } else {
            Seq::empty()
        },
    )
}

pub fn patch_summary(d: &Diff, hunk: usize, width: u16) -> (r: (String, String, String, String, String))
    ensures
        (r.0@, r.1@, r.2@, r.3@, r.4@) == patch_summary_spec(*d, hunk as int, width as int),
{
    let mut a = match d.target {
        DiffTarget::Staged => copy_str("staged"),
        DiffTarget::Worktree => copy_str("unstaged"),
    };
    let ghost a0 = a@;
    if d.is_binary {
        push_str(&mut a, " binary");
    } else {
        assert(a0 + Seq::<char>::empty() =~= a0);
    }
    push_str(&mut a, "  ");
    let mut b = if d.hunks.len() == 0 {
        copy_str("no hunks")
    } else {
        let mut t = copy_str("hunk ");
        let shown: usize = if hunk < usize::MAX {
            hunk + 1
        } else {
            hunk
        };
        push_str(&mut t, decimal_string(shown as u64).as_str());
        push_str(&mut t, "/");
        push_str(&mut t, decimal_string(d.hunks.len() as u64).as_str());
        t
    };
    push_str(&mut b, "  ");
    let mut c = copy_str("+");
    push_str(&mut c, decimal_string(d.additions as u64).as_str());
    push_str(&mut c, " -");
    push_str(&mut c, decimal_string(d.deletions as u64).as_str());
    push_str(&mut c, "  ");
    let mut e = copy_str("ctx:");
    push_str(&mut e, decimal_string(d.context_lines as u64).as_str());
    push_str(&mut e, " ws:");
    push_str(&mut e, d.whitespace.label());
    push_str(&mut e, "  ");
    let f = if hunk < d.hunks.len() {
        let room: usize = if width > 42 {
            (width - 42) as usize
        } else {
            0
        };
        truncate_end(d.hunks[hunk].header.as_str(), room)
    } else {
        String::new()
    };
    (a, b, c, e, f)
}

} // verus!
