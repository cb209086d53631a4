//! Git data model: changes, status snapshots, diffs and the read models of
//! the explorer panels, with the parsers that build them from Git output.
pub mod diff;
pub mod explore;
pub mod order;
pub mod queries;
pub mod redact;
pub mod repo;
pub mod status;

use crate::path::{components, path_eq};
use crate::text::{bytes_eq, lossy_chars, lossy_text, push_str, str_eq};
use vstd::prelude::*;

verus! {

/// An error reported by a Git operation or by parsing its output.
#[derive(Debug, Clone)]
pub struct GitError {
    message: String,
}

impl View for GitError {
    type V = Seq<char>;

    closed spec fn view(&self) -> Seq<char> {
        self.message@
    }
}

impl GitError {
    pub fn new(message: String) -> (e: GitError)
        ensures
            e@ == message@,
    {
        GitError { message }
    }

    /// The message, as `Display` would print it.
    pub fn to_string(&self) -> (s: String)
        ensures
            s@ == self@,
    {
        self.message.clone()
    }
}

/// Position of a change in the snapshot it was parsed from.
#[derive(Debug, Clone, Copy, PartialEq, Eq, PartialOrd, Ord, Hash)]
pub struct ChangeId(pub usize);

/// The group of the Changes panel a change is listed under.
#[derive(Debug, Clone, Copy, PartialEq, Eq, PartialOrd, Ord, Hash)]
pub enum ChangeSection {
    Conflict,
    Staged,
    Unstaged,
    Untracked,
    Ignored,
}

impl ChangeSection {
    pub open spec fn spec_label(self) -> Seq<char> {
        match self {
            ChangeSection::Conflict => "Conflicts"@,
            ChangeSection::Staged => "Staged"@,
            ChangeSection::Unstaged => "Unstaged"@,
            ChangeSection::Untracked => "Untracked"@,
            ChangeSection::Ignored => "Ignored"@,
        }
    }

    pub fn label(self) -> (s: &'static str)
        ensures
            s@ == self.spec_label(),
    {
        match self {
            ChangeSection::Conflict => "Conflicts",
            ChangeSection::Staged => "Staged",
            ChangeSection::Unstaged => "Unstaged",
            ChangeSection::Untracked => "Untracked",
            ChangeSection::Ignored => "Ignored",
        }
    }

    pub fn same(self, other: ChangeSection) -> (r: bool)
        ensures
            r == (self == other),
    {
        match (self, other) {
            (ChangeSection::Conflict, ChangeSection::Conflict) => true,
            (ChangeSection::Staged, ChangeSection::Staged) => true,
            (ChangeSection::Unstaged, ChangeSection::Unstaged) => true,
            (ChangeSection::Untracked, ChangeSection::Untracked) => true,
            (ChangeSection::Ignored, ChangeSection::Ignored) => true,
            _ => false,
        }
    }
}

/// What happened to a path.
#[derive(Debug, Clone, Copy, PartialEq, Eq, PartialOrd, Ord, Hash)]
pub enum ChangeKind {
    Modified,
    Added,
    Deleted,
    Renamed,
    Copied,
    TypeChanged,
    Untracked,
    Ignored,
    Conflict,
}

impl ChangeKind {
    pub open spec fn spec_tag(self) -> Seq<char> {
        match self {
            ChangeKind::Modified => "M"@,
            ChangeKind::Added => "A"@,
            ChangeKind::Deleted => "D"@,
            ChangeKind::Renamed => "R"@,
            ChangeKind::Copied => "C"@,
            ChangeKind::TypeChanged => "T"@,
            ChangeKind::Untracked => "?"@,
            ChangeKind::Ignored => "!"@,
            ChangeKind::Conflict => "U"@,
        }
    }

    /// One-letter tag shown in front of a path.
    pub fn tag(self) -> (s: &'static str)
        ensures
            s@ == self.spec_tag(),
    {
        match self {
            ChangeKind::Modified => "M",
            ChangeKind::Added => "A",
            ChangeKind::Deleted => "D",
            ChangeKind::Renamed => "R",
            ChangeKind::Copied => "C",
            ChangeKind::TypeChanged => "T",
            ChangeKind::Untracked => "?",
            ChangeKind::Ignored => "!",
            ChangeKind::Conflict => "U",
        }
    }

    pub fn same(self, other: ChangeKind) -> (r: bool)
        ensures
            r == (self == other),
    {
        match (self, other) {
            (ChangeKind::Modified, ChangeKind::Modified) => true,
            (ChangeKind::Added, ChangeKind::Added) => true,
            (ChangeKind::Deleted, ChangeKind::Deleted) => true,
            (ChangeKind::Renamed, ChangeKind::Renamed) => true,
            (ChangeKind::Copied, ChangeKind::Copied) => true,
            (ChangeKind::TypeChanged, ChangeKind::TypeChanged) => true,
            (ChangeKind::Untracked, ChangeKind::Untracked) => true,
            (ChangeKind::Ignored, ChangeKind::Ignored) => true,
            (ChangeKind::Conflict, ChangeKind::Conflict) => true,
            _ => false,
        }
    }
}

/// Identity of a repository: its work tree root and Git directories, as
/// raw path bytes.
#[derive(Debug, Clone, PartialEq, Eq, PartialOrd, Ord, Hash)]
pub struct RepoId {
    pub root: Vec<u8>,
    pub git_dir: Vec<u8>,
    pub common_git_dir: Vec<u8>,
}

/// A repository identity by the components of its paths, which is how
/// paths compare.
pub struct RepoIdView {
    pub root: Seq<Seq<u8>>,
    pub git_dir: Seq<Seq<u8>>,
    pub common_git_dir: Seq<Seq<u8>>,
}

impl View for RepoId {
    type V = RepoIdView;

    open spec fn view(&self) -> RepoIdView {
        RepoIdView {
            root: components(self.root@),
            git_dir: components(self.git_dir@),
            common_git_dir: components(self.common_git_dir@),
        }
    }
}

/// Stable identity of a change across refreshes.
#[derive(Debug, Clone, PartialEq, Eq, PartialOrd, Ord, Hash)]
pub struct ChangeKey {
    pub repo_id: Option<RepoId>,
    pub section: ChangeSection,
    pub kind: ChangeKind,
    pub path: Vec<u8>,
    pub original_path: Option<Vec<u8>>,
    pub xy: String,
}

/// A change key with its paths taken by their components, which is how
/// paths compare: `a//b`, `a/./b` and `a/b/` are the same path as `a/b`.
pub struct ChangeKeyView {
    pub repo_id: Option<RepoIdView>,
    pub section: ChangeSection,
    pub kind: ChangeKind,
    pub path: Seq<Seq<u8>>,
    pub original_path: Option<Seq<Seq<u8>>>,
    pub xy: Seq<char>,
}

pub open spec fn opt_repo_view(r: Option<RepoId>) -> Option<RepoIdView> {
    match r {
        Some(id) => Some(id@),
        None => None,
    }
}

/// The components of an optional path.
pub open spec fn opt_components(o: Option<Seq<u8>>) -> Option<Seq<Seq<u8>>> {
    match o {
        Some(p) => Some(components(p)),
        None => None,
    }
}

pub open spec fn opt_bytes_view(o: Option<Vec<u8>>) -> Option<Seq<u8>> {
    match o {
        Some(v) => Some(v@),
        None => None,
    }
}

impl View for ChangeKey {
    type V = ChangeKeyView;

    open spec fn view(&self) -> ChangeKeyView {
        ChangeKeyView {
            repo_id: opt_repo_view(self.repo_id),
            section: self.section,
            kind: self.kind,
            path: components(self.path@),
            original_path: opt_components(opt_bytes_view(self.original_path)),
            xy: self.xy@,
        }
    }
}

/// One row of the Changes panel.
#[derive(Debug, Clone)]
pub struct Change {
    pub id: ChangeId,
    pub key: ChangeKey,
    pub section: ChangeSection,
    pub kind: ChangeKind,
    pub path: Vec<u8>,
    pub original_path: Option<Vec<u8>>,
    pub xy: String,
}

pub struct ChangeView {
    pub id: usize,
    pub key: ChangeKeyView,
    pub section: ChangeSection,
    pub kind: ChangeKind,
    pub path: Seq<u8>,
    pub original_path: Option<Seq<u8>>,
    pub xy: Seq<char>,
}

impl View for Change {
    type V = ChangeView;

    open spec fn view(&self) -> ChangeView {
        ChangeView {
            id: self.id.0,
            key: self.key@,
            section: self.section,
            kind: self.kind,
            path: self.path@,
            original_path: opt_bytes_view(self.original_path),
            xy: self.xy@,
        }
    }
}

/// The views of a list of changes.
pub open spec fn changes_view(v: Seq<Change>) -> Seq<ChangeView> {
    v.map_values(|c: Change| c@)
}

/// Copy of a byte vector.
pub fn copy_bytes(v: &Vec<u8>) -> (r: Vec<u8>)
    ensures
        r@ == v@,
{
    let mut r: Vec<u8> = Vec::new();
    let mut i: usize = 0;
    while i < v.len()
        invariant
            i <= v.len(),
            r@ == v@.take(i as int),
        decreases v.len() - i,
    {
        r.push(v[i]);
        assert(v@.take(i + 1) == v@.take(i as int).push(v@[i as int]));
        i += 1;
    }
    assert(v@.take(v.len() as int) =~= v@);
    r
}

pub fn copy_opt_bytes(v: &Option<Vec<u8>>) -> (r: Option<Vec<u8>>)
    ensures
        opt_bytes_view(r) == opt_bytes_view(*v),
{
    match v {
        Some(b) => Some(copy_bytes(b)),
        None => None,
    }
}

impl RepoId {
    pub fn copy(&self) -> (r: RepoId)
        ensures
            r@ == self@,
    {
        RepoId {
            root: copy_bytes(&self.root),
            git_dir: copy_bytes(&self.git_dir),
            common_git_dir: copy_bytes(&self.common_git_dir),
        }
    }

    pub fn equals(&self, other: &RepoId) -> (r: bool)
        ensures
            r == (self@ == other@),
    {
        path_eq(&self.root, &other.root) && path_eq(&self.git_dir, &other.git_dir) && path_eq(
            &self.common_git_dir,
            &other.common_git_dir,
        )
    }
}

fn opt_path_eq(a: &Option<Vec<u8>>, b: &Option<Vec<u8>>) -> (r: bool)
    ensures
        r == (opt_components(opt_bytes_view(*a)) == opt_components(opt_bytes_view(*b))),
{
    match (a, b) {
        (Some(x), Some(y)) => path_eq(x, y),
        (None, None) => true,
        _ => false,
    }
}

impl ChangeKey {
    pub fn copy(&self) -> (r: ChangeKey)
        ensures
            r@ == self@,
    {
        let repo_id = match &self.repo_id {
            Some(id) => Some(id.copy()),
            None => None,
        };
        ChangeKey {
            repo_id,
            section: self.section,
            kind: self.kind,
            path: copy_bytes(&self.path),
            original_path: copy_opt_bytes(&self.original_path),
            xy: self.xy.clone(),
        }
    }

    /// Field-wise equality, as the derived `==` computes it: paths compare
    /// by their components.
    pub fn equals(&self, other: &ChangeKey) -> (r: bool)
        ensures
            r == (self@ == other@),
    {
        let same_repo = match (&self.repo_id, &other.repo_id) {
            (Some(a), Some(b)) => a.equals(b),
            (None, None) => true,
            _ => false,
        };
        same_repo && self.section.same(other.section) && self.kind.same(other.kind) && path_eq(
            &self.path,
            &other.path,
        ) && opt_path_eq(&self.original_path, &other.original_path) && str_eq(
            self.xy.as_str(),
            other.xy.as_str(),
        )
    }
}

impl Change {
    pub fn copy(&self) -> (r: Change)
        ensures
            r@ == self@,
    {
        Change {
            id: ChangeId(self.id.0),
            key: self.key.copy(),
            section: self.section,
            kind: self.kind,
            path: copy_bytes(&self.path),
            original_path: copy_opt_bytes(&self.original_path),
            xy: self.xy.clone(),
        }
    }

    pub fn is_staged(&self) -> (r: bool)
        ensures
            r == (self.section == ChangeSection::Staged),
    {
        self.section.same(ChangeSection::Staged)
    }

    pub fn is_unstaged(&self) -> (r: bool)
        ensures
            r == (self.section == ChangeSection::Unstaged),
    {
        self.section.same(ChangeSection::Unstaged)
    }

    pub fn is_untracked(&self) -> (r: bool)
        ensures
            r == (self.section == ChangeSection::Untracked),
    {
        self.section.same(ChangeSection::Untracked)
    }

    pub fn is_conflict(&self) -> (r: bool)
        ensures
            r == (self.section == ChangeSection::Conflict),
    {
        self.section.same(ChangeSection::Conflict)
    }

    pub open spec fn spec_display_path(self) -> Seq<char> {
        match self.original_path {
            Some(o) => lossy_chars(o@) + " -> "@ + lossy_chars(self.path@),
            None => lossy_chars(self.path@),
        }
    }

    /// The path as shown to the user: `old -> new` for renames and copies.
    pub fn display_path(&self) -> (s: String)
        ensures
            s@ == self.spec_display_path(),
    {
        match &self.original_path {
            Some(original) => {
                let mut s = lossy_text(original.as_slice());
                push_str(&mut s, " -> ");
                let p = lossy_text(self.path.as_slice());
                push_str(&mut s, p.as_str());
                s
            },
            None => lossy_text(self.path.as_slice()),
        }
    }
}

/// The parsed result of `git status --porcelain=v2 --branch -z`.
#[derive(Debug, Clone)]
pub struct StatusSnapshot {
    pub branch: String,
    pub ahead: Option<u32>,
    pub behind: Option<u32>,
    pub changes: Vec<Change>,
}

pub struct SnapshotView {
    pub branch: Seq<char>,
    pub ahead: Option<u32>,
    pub behind: Option<u32>,
    pub changes: Seq<ChangeView>,
}

impl View for StatusSnapshot {
    type V = SnapshotView;

    open spec fn view(&self) -> SnapshotView {
        SnapshotView {
            branch: self.branch@,
            ahead: self.ahead,
            behind: self.behind,
            changes: changes_view(self.changes@),
        }
    }
}

/// Which side a diff compares against.
#[derive(Debug, Clone, Copy, PartialEq, Eq)]
pub enum DiffTarget {
    Staged,
    Worktree,
}

} // verus!
