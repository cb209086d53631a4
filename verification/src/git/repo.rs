//! A repository as the program sees it: the paths Git reported for it and
//! what the library makes of Git's answers about it.
//!
//! Running Git is the caller's part: each method here takes what a Git
//! command printed and computes the result the panels show.
use super::diff::{parse_diff, parsed_from, Diff, WhitespaceMode};
use super::status::{parse_status, status_spec};
use super::{
    changes_view, copy_bytes, Change, ChangeId, ChangeKey, ChangeKeyView, ChangeKind, ChangeSection, ChangeView,
    DiffTarget, GitError, RepoId, RepoIdView, SnapshotView, StatusSnapshot,
};
use crate::display::{label_of, path_label};
use crate::model::{RepoSummary, RepoSummaryView};
use crate::path::components;
use crate::text::{
    bytes_range, chars_eq, chars_of, chars_range, copy_str, decimal, decimal_string, lines,
    lossy_chars, lossy_text, opt_index, push_chars, push_str, spans_describe, string_of_range, text_bytes,
    text_lines,
};
use std::collections::BTreeMap;
use vstd::prelude::*;
use vstd::utf8::encode_utf8;

verus! {

// ---------------------------------------------------------------------------
// Unix paths as bytes
// ---------------------------------------------------------------------------

/// The path separator.
pub open spec fn slash() -> u8 {
    47u8
}

/// `root.join(path)` on Unix: an absolute `path` replaces `root`; otherwise
/// a separator goes between them unless `root` is empty or already ends in
/// one.
pub open spec fn join_path(root: Seq<u8>, path: Seq<u8>) -> Seq<u8> {
    if path.len() > 0 && path[0] == slash() {
        path
    } else if root.len() > 0 && root.last() != slash() {
        root + seq![slash()] + path
    } else {
        root + path
    }
}

/// Joins two Unix paths as `Path::join` does.
pub fn join_paths(root: &[u8], path: &[u8]) -> (r: Vec<u8>)
    ensures
        r@ == join_path(root@, path@),
{
    if path.len() > 0 && path[0] == 47u8 {
        return bytes_range(path, 0, path.len());
    }
    let mut r = bytes_range(root, 0, root.len());
    if root.len() > 0 && root[root.len() - 1] != 47u8 {
        r.push(47u8);
    }
    let tail = bytes_range(path, 0, path.len());
    let mut i: usize = 0;
    let ghost head = r@;
    while i < tail.len()
        invariant
            i <= tail.len(),
            r@ == head + tail@.take(i as int),
        decreases tail.len() - i,
    {
        r.push(tail[i]);
        assert(tail@.take(i + 1) =~= tail@.take(i as int).push(tail@[i as int]));
        i += 1;
    }
    proof {
        assert(root@.subrange(0, root@.len() as int) =~= root@);
        assert(path@.subrange(0, path@.len() as int) =~= path@);
        assert(tail@.take(tail@.len() as int) =~= tail@);
    }
    r
}

/// Start of the last segment of `p` (just after its last separator).
pub open spec fn segment_start(p: Seq<u8>) -> int
    decreases p.len(),
{
    if p.len() == 0 {
        0
    } else if p.last() == slash() {
        p.len() as int
    } else {
        segment_start(p.drop_last())
    }
}

proof fn lemma_segment_start(p: Seq<u8>, st: int)
    requires
        0 <= st <= p.len(),
        forall|i: int| st <= i < p.len() ==> p[i] != slash(),
        st == 0 || p[st - 1] == slash(),
    ensures
        segment_start(p) == st,
    decreases p.len() - st,
{
    if st < p.len() {
        lemma_segment_start(p.drop_last(), st);
    }
}

proof fn lemma_segment_start_bounds(p: Seq<u8>)
    ensures
        0 <= segment_start(p) <= p.len(),
        p.len() > 0 && p.last() != slash() ==> segment_start(p) < p.len(),
    decreases p.len(),
{
    if p.len() > 0 && p.last() != slash() {
        lemma_segment_start_bounds(p.drop_last());
    }
}

/// The last component of a Unix path once separators and `.` components
/// are dropped (empty when there is none).
pub open spec fn last_component(p: Seq<u8>) -> Seq<u8>
    decreases p.len(),
{
    if p.len() == 0 {
        Seq::empty()
    } else if p.last() == slash() {
        last_component(p.drop_last())
    } else {
        let st = segment_start(p);
        if 0 <= st < p.len() {
            if p.skip(st) == seq![46u8] {
                last_component(p.take(st))
            } else {
                p.skip(st)
            }
        } else {
            Seq::empty()
        }
    }
}

/// `Path::file_name` on Unix: the last component, unless there is none or
/// it is `..`.
pub open spec fn file_name(p: Seq<u8>) -> Option<Seq<u8>> {
    let c = last_component(p);
    if c.len() == 0 || c == seq![46u8, 46u8] {
        None
    } else {
        Some(c)
    }
}

/// The final component of a Unix path, as `Path::file_name` gives it.
pub fn path_file_name(p: &[u8]) -> (r: Option<Vec<u8>>)
    ensures
        match file_name(p@) {
            Some(n) => r matches Some(v) && v@ == n,
            None => r is None,
        },
{
    let mut end = p.len();
    assert(p@.take(end as int) =~= p@);
    loop
        invariant
            end <= p.len(),
            last_component(p@.take(end as int)) == last_component(p@),
        decreases end,
    {
        if end == 0 {
            return None;
        }
        if p[end - 1] == 47u8 {
            assert(p@.take(end as int).drop_last() =~= p@.take(end - 1));
            end -= 1;
        } else {
            let mut st = end;
            while st > 0 && p[st - 1] != 47u8
                invariant
                    st <= end <= p.len(),
                    forall|i: int| st <= i < end ==> p@[i] != slash(),
                decreases st,
            {
                st -= 1;
            }
            let ghost q = p@.take(end as int);
            proof {
                lemma_segment_start(q, st as int);
                assert(q.skip(st as int) =~= p@.subrange(st as int, end as int));
            }
            if end - st == 1 && p[st] == 46u8 {
                proof {
                    assert(q.skip(st as int) =~= seq![46u8]);
                    assert(q.take(st as int) =~= p@.take(st as int));
                }
                end = st;
            } else {
                proof {
                    assert(q.skip(st as int) != seq![46u8]) by {
                        if q.skip(st as int) == seq![46u8] {
                            assert(q.skip(st as int).len() == 1);
                            assert(q.skip(st as int)[0] == p@[st as int]);
                            assert(seq![46u8][0] == 46u8);
                        }
                    }
                }
                let seg = bytes_range(p, st, end);
                if seg.len() == 2 && seg[0] == 46u8 && seg[1] == 46u8 {
                    assert(seg@ =~= seq![46u8, 46u8]);
                    return None;
                }
                proof {
                    if seg@ == seq![46u8, 46u8] {
                        assert(seg@.len() == 2);
                    }
                }
                return Some(seg);
            }
        }
    }
}

// ---------------------------------------------------------------------------
// The repository
// ---------------------------------------------------------------------------

/// The paths of a repository: its work tree root and its Git directories.
pub struct GitCliView {
    pub root: Seq<u8>,
    pub git_dir: Seq<u8>,
    pub common_git_dir: Seq<u8>,
}

/// A discovered repository.
#[derive(Debug, Clone)]
pub struct GitCli {
    root: Vec<u8>,
    git_dir: Vec<u8>,
    common_git_dir: Vec<u8>,
}

impl View for GitCli {
    type V = GitCliView;

    closed spec fn view(&self) -> GitCliView {
        GitCliView { root: self.root@, git_dir: self.git_dir@, common_git_dir: self.common_git_dir@ }
    }
}

/// The identity a repository with these paths carries.
pub open spec fn repo_id_of(v: GitCliView) -> RepoIdView {
    RepoIdView {
        root: components(v.root),
        git_dir: components(v.git_dir),
        common_git_dir: components(v.common_git_dir),
    }
}

/// The line `index` of `ls`, or `default` when there are fewer lines.
pub open spec fn line_or(ls: Seq<Seq<char>>, index: int, default: Seq<char>) -> Seq<char> {
    if index < ls.len() {
        ls[index]
    } else {
        default
    }
}

/// What the output of `git rev-parse --show-toplevel --git-dir
/// --git-common-dir --is-inside-work-tree` says about a repository.
pub open spec fn discovery_spec(out: Seq<u8>) -> Result<GitCliView, Seq<char>> {
    let ls = lines(lossy_chars(out));
    if ls.len() < 1 {
        Err("git did not return a repository root"@)
    } else if ls.len() < 2 {
        Err("git did not return a git directory"@)
    } else if ls.len() < 3 {
        Err("git did not return a common git directory"@)
    } else if line_or(ls, 3, "false"@) != "true"@ {
        Err("not inside a Git work tree"@)
    } else {
        let root = encode_utf8(ls[0]);
        Ok(
            GitCliView {
                root,
                git_dir: join_path(root, encode_utf8(ls[1])),
                common_git_dir: join_path(root, encode_utf8(ls[2])),
            },
        )
    }
}

/// The UTF-8 bytes of `t[a..b]`.
fn range_bytes(t: &[char], a: usize, b: usize) -> (r: Vec<u8>)
    requires
        a <= b <= t.len(),
    ensures
        r@ == encode_utf8(t@.subrange(a as int, b as int)),
{
    let s = string_of_range(t, a, b);
    let bytes = s.as_str().as_bytes();
    let r = bytes_range(bytes, 0, bytes.len());
    assert(bytes@.subrange(0, bytes@.len() as int) =~= bytes@);
    r
}

/// The header line for repository `g` and status `s`: the name of the
/// root directory (or the whole root where it has none), the branch and its
/// distance to the upstream.
pub open spec fn summary_view(g: GitCliView, s: SnapshotView) -> RepoSummaryView {
    RepoSummaryView {
        root_label: label_of(g.root),
        branch: s.branch,
        ahead: s.ahead,
        behind: s.behind,
    }
}

impl GitCli {
    /// The identity of this repository.
    pub fn repo_id(&self) -> (r: RepoId)
        ensures
            r@ == repo_id_of(self@),
    {
        RepoId {
            root: copy_bytes(&self.root),
            git_dir: copy_bytes(&self.git_dir),
            common_git_dir: copy_bytes(&self.common_git_dir),
        }
    }

    /// Builds the repository from what `git rev-parse --show-toplevel
    /// --git-dir --git-common-dir --is-inside-work-tree` printed.
    pub fn discover(stdout: &[u8]) -> (r: Result<GitCli, GitError>)
        ensures
            match discovery_spec(stdout@) {
                Ok(v) => r matches Ok(g) && g@ == v,
                Err(m) => r matches Err(e) && e@ == m,
            },
    {
        let (text, spans) = text_lines(stdout);
        let ghost ls = lines(lossy_chars(stdout@));
        if spans.len() < 1 {
            return Err(GitError::new(copy_str("git did not return a repository root")));
        }
        if spans.len() < 2 {
            return Err(GitError::new(copy_str("git did not return a git directory")));
        }
        if spans.len() < 3 {
            return Err(GitError::new(copy_str("git did not return a common git directory")));
        }
        let inside = if spans.len() > 3 {
            let (a, b) = spans[3];
            chars_range(&text, a, b)
        } else {
            chars_of("false")
        };
        let truth = chars_of("true");
        if !chars_eq(&inside, &truth) {
            return Err(GitError::new(copy_str("not inside a Git work tree")));
        }
        let (a0, b0) = spans[0];
        let (a1, b1) = spans[1];
        let (a2, b2) = spans[2];
        let root = range_bytes(&text, a0, b0);
        let git_rel = range_bytes(&text, a1, b1);
        let common_rel = range_bytes(&text, a2, b2);
        let git_dir = join_paths(&root, &git_rel);
        let common_git_dir = join_paths(&root, &common_rel);
        Ok(GitCli { root, git_dir, common_git_dir })
    }

    /// The work tree root.
    pub fn root(&self) -> (r: &[u8])
        ensures
            r@ == self@.root,
    {
        self.root.as_slice()
    }

    /// The Git directory of this work tree.
    pub fn git_dir(&self) -> (r: &[u8])
        ensures
            r@ == self@.git_dir,
    {
        self.git_dir.as_slice()
    }

    /// The Git directory shared by all work trees of the repository.
    pub fn common_git_dir(&self) -> (r: &[u8])
        ensures
            r@ == self@.common_git_dir,
    {
        self.common_git_dir.as_slice()
    }

    /// The header line for this repository and a status snapshot: the
    /// name of the root directory (or the whole root where it has none),
    /// the branch and its distance to the upstream.
    pub fn repo_summary(&self, snapshot: &StatusSnapshot) -> (r: RepoSummary)
        ensures
            r@ == summary_view(self@, snapshot@),
    {
        let root_label = path_label(self.root.as_slice());
        RepoSummary {
            root_label,
            branch: snapshot.branch.clone(),
            ahead: snapshot.ahead,
            behind: snapshot.behind,
        }
    }

    /// The status snapshot that `git status --porcelain=v2 -z --branch
    /// --untracked-files=all --renames` printed, each change tagged with this
    /// repository's identity.
    pub fn snapshot(&self, stdout: &[u8]) -> (r: Result<StatusSnapshot, GitError>)
        ensures
            match status_spec(stdout@) {
                Ok(v) => r matches Ok(s) && s@ == with_repo(v, repo_id_of(self@)),
                Err(m) => r matches Err(e) && e@ == m,
            },
    {
        let mut snapshot = match parse_status(stdout) {
            Ok(s) => s,
            Err(e) => return Err(e),
        };
        self.attach_repo_id(&mut snapshot);
        Ok(snapshot)
    }

    /// Tags every change of `snapshot` with this repository's identity.
    pub fn attach_repo_id(&self, snapshot: &mut StatusSnapshot)
        ensures
            final(snapshot)@ == with_repo(old(snapshot)@, repo_id_of(self@)),
    {
        let mut changes: Vec<super::Change> = Vec::new();
        let mut i: usize = 0;
        let ghost id = repo_id_of(self@);
        while i < snapshot.changes.len()
            invariant
                i <= snapshot.changes.len(),
                id == repo_id_of(self@),
                changes.len() == i,
                forall|k: int|
                    0 <= k < i ==> (#[trigger] changes@[k])@ == change_with_repo(snapshot.changes@[k]@, id),
            decreases snapshot.changes.len() - i,
        {
            let mut c = snapshot.changes[i].copy();
            c.key.repo_id = Some(self.repo_id());
            changes.push(c);
            i += 1;
        }
        proof {
            assert(changes_view(changes@) =~= changes_view(snapshot.changes@).map_values(
                |c: ChangeView| change_with_repo(c, id),
            ));
        }
        snapshot.changes = changes;
    }
}

/// `c` tagged with the repository `id`.
pub open spec fn change_with_repo(c: ChangeView, id: RepoIdView) -> ChangeView {
    ChangeView {
        id: c.id,
        key: ChangeKeyView {
            repo_id: Some(id),
            section: c.key.section,
            kind: c.key.kind,
            path: c.key.path,
            original_path: c.key.original_path,
            xy: c.key.xy,
        },
        section: c.section,
        kind: c.kind,
        path: c.path,
        original_path: c.original_path,
        xy: c.xy,
    }
}

/// `s` with every change tagged with the repository `id`.
pub open spec fn with_repo(s: SnapshotView, id: RepoIdView) -> SnapshotView {
    SnapshotView {
        branch: s.branch,
        ahead: s.ahead,
        behind: s.behind,
        changes: s.changes.map_values(|c: ChangeView| change_with_repo(c, id)),
    }
}

// ---------------------------------------------------------------------------
// Diffs and hunks
// ---------------------------------------------------------------------------

/// The side a change's diff compares against.
pub open spec fn diff_target(section: ChangeSection) -> DiffTarget {
    match section {
        ChangeSection::Staged => DiffTarget::Staged,
        _ => DiffTarget::Worktree,
    }
}

/// The `+`-prefixed lines of an added file, each ended by a newline.
pub open spec fn added_lines(ls: Seq<Seq<char>>) -> Seq<char>
    decreases ls.len(),
{
    if ls.len() == 0 {
        Seq::empty()
    } else {
        added_lines(ls.drop_last()) + "+"@ + ls.last() + "\n"@
    }
}

/// The patch that shows a new, untracked file at `path` with `contents`.
pub open spec fn untracked_patch_text(path: Seq<u8>, contents: Seq<u8>) -> Seq<char> {
    let p = lossy_chars(path);
    let ls = lines(lossy_chars(contents));
    let n: nat = if ls.len() == 0 {
        1
    } else {
        ls.len()
    };
    "diff --git a/"@ + p + " b/"@ + p + "\n"@ + "new file mode 100644\n"@ + "index 0000000..0000000\n"@
        + "--- /dev/null\n"@ + "+++ b/"@ + p + "\n"@ + "@@ -0,0 +1,"@ + decimal(n) + " @@\n"@
        + added_lines(ls)
}

/// Builds the patch that adds an untracked file, so that it can be shown
/// like any other diff.
pub fn untracked_patch(path: &[u8], contents: &[u8]) -> (r: Vec<u8>)
    ensures
        r@ == encode_utf8(untracked_patch_text(path@, contents@)),
{
    let p = lossy_text(path);
    let (text, spans) = text_lines(contents);
    let ghost ls = lines(lossy_chars(contents@));
    let mut patch = String::new();
    push_str(&mut patch, "diff --git a/");
    push_str(&mut patch, p.as_str());
    push_str(&mut patch, " b/");
    push_str(&mut patch, p.as_str());
    push_str(&mut patch, "\n");
    push_str(&mut patch, "new file mode 100644\n");
    push_str(&mut patch, "index 0000000..0000000\n");
    push_str(&mut patch, "--- /dev/null\n");
    push_str(&mut patch, "+++ b/");
    push_str(&mut patch, p.as_str());
    push_str(&mut patch, "\n");
    push_str(&mut patch, "@@ -0,0 +1,");
    let n: usize = if spans.len() == 0 {
        1
    } else {
        spans.len()
    };
    let count = decimal_string(n as u64);
    push_str(&mut patch, count.as_str());
    push_str(&mut patch, " @@\n");
    let ghost head = patch@;
    let mut k: usize = 0;
    while k < spans.len()
        invariant
            spans_describe(text@, spans@, ls),
            k <= spans.len(),
            patch@ == head + added_lines(ls.take(k as int)),
        decreases spans.len() - k,
    {
        let (a, b) = spans[k];
        push_str(&mut patch, "+");
        let line = chars_range(&text, a, b);
        push_chars(&mut patch, &line);
        push_str(&mut patch, "\n");
        proof {
            assert(ls.take(k + 1).drop_last() =~= ls.take(k as int));
        }
        k += 1;
    }
    proof {
        assert(ls.take(spans.len() as int) =~= ls);
    }
    let bytes = patch.as_str().as_bytes();
    let r = bytes_range(bytes, 0, bytes.len());
    assert(bytes@.subrange(0, bytes@.len() as int) =~= bytes@);
    r
}

/// Why a hunk cannot be staged (or, with `reverse`, unstaged), if it cannot.
pub open spec fn hunk_disabled_spec(
    section: ChangeSection,
    kind: ChangeKind,
    hunk_count: int,
    is_binary: bool,
    whitespace: WhitespaceMode,
    hunk_index: int,
    reverse: bool,
) -> Option<Seq<char>> {
    if hunk_index >= hunk_count {
        Some("no hunk selected"@)
    } else if is_binary {
        Some("binary files do not support hunk staging"@)
    } else if whitespace != WhitespaceMode::Normal {
        Some("hunk staging requires normal whitespace diff mode"@)
    } else if kind != ChangeKind::Modified {
        Some("hunk staging currently supports modified files only"@)
    } else if reverse && section != ChangeSection::Staged {
        Some("hunk unstaging requires a staged change"@)
    } else if !reverse && section != ChangeSection::Unstaged {
        Some("hunk staging requires an unstaged tracked change"@)
    } else {
        None
    }
}

/// Why hunk `hunk_index` of `diff` cannot be staged (or, with `reverse`,
/// unstaged) for `change`; `None` when it can.
pub fn hunk_action_disabled_reason(change: &Change, diff: &Diff, hunk_index: usize, reverse: bool) -> (r:
    Option<String>)
    ensures
        match hunk_disabled_spec(
            change.section,
            change.kind,
            diff.hunks.len() as int,
            diff.is_binary,
            diff.whitespace,
            hunk_index as int,
            reverse,
        ) {
            Some(m) => r matches Some(s) && s@ == m,
            None => r is None,
        },
{
    if hunk_index >= diff.hunks.len() {
        return Some(copy_str("no hunk selected"));
    }
    if diff.is_binary {
        return Some(copy_str("binary files do not support hunk staging"));
    }
    if !diff.whitespace.is_normal() {
        return Some(copy_str("hunk staging requires normal whitespace diff mode"));
    }
    if !change.kind.same(ChangeKind::Modified) {
        return Some(copy_str("hunk staging currently supports modified files only"));
    }
    if reverse && !change.section.same(ChangeSection::Staged) {
        return Some(copy_str("hunk unstaging requires a staged change"));
    }
    if !reverse && !change.section.same(ChangeSection::Unstaged) {
        return Some(copy_str("hunk staging requires an unstaged tracked change"));
    }
    None
}

/// The patch that `git apply --cached` (with `--reverse` when `reverse`)
/// gets to stage or unstage one hunk, or why there is none.
pub open spec fn hunk_patch_spec(change: Change, diff: Diff, hunk_index: int, reverse: bool) -> Result<Seq<u8>, Seq<char>> {
    match hunk_disabled_spec(
        change.section,
        change.kind,
        diff.hunks.len() as int,
        diff.is_binary,
        diff.whitespace,
        hunk_index,
        reverse,
    ) {
        Some(m) => Err(m),
        None => match diff.spec_hunk_patch(hunk_index) {
            Some(p) => Ok(p),
            None => Err("no hunk selected"@),
        },
    }
}

/// The arguments of the `git diff` that shows a tracked `change`: a plain
/// patch with `context_lines` lines of context, the whitespace flag of the
/// mode, `--cached` for a staged change, then the path.
pub open spec fn diff_args_spec(change: Change, context_lines: u8, whitespace: WhitespaceMode) -> Seq<Seq<u8>> {
    let base = seq![
        encode_utf8("diff"@),
        encode_utf8("--no-ext-diff"@),
        encode_utf8("--color=never"@),
        encode_utf8("--patch"@),
        encode_utf8("--find-renames"@),
        encode_utf8("-U"@ + decimal(context_lines as nat)),
    ];
    let ws = match whitespace {
        WhitespaceMode::Normal => Seq::empty(),
        WhitespaceMode::IgnoreSpaceChange => seq![encode_utf8("--ignore-space-change"@)],
        WhitespaceMode::IgnoreAllSpace => seq![encode_utf8("--ignore-all-space"@)],
    };
    let cached = if change.section == ChangeSection::Staged {
        seq![encode_utf8("--cached"@)]
    } else {
        Seq::empty()
    };
    base + ws + cached + seq![encode_utf8("--"@), change.path@]
}

/// The arguments of the `git diff` that shows `change`; an untracked file
/// is read instead (see `GitCli::diff_with_options`).
pub fn diff_args(change: &Change, context_lines: u8, whitespace: WhitespaceMode) -> (r: Vec<Vec<u8>>)
    ensures
        paths_view(r@) == diff_args_spec(*change, context_lines, whitespace),
{
    let mut r: Vec<Vec<u8>> = Vec::new();
    r.push(text_bytes("diff"));
    r.push(text_bytes("--no-ext-diff"));
    r.push(text_bytes("--color=never"));
    r.push(text_bytes("--patch"));
    r.push(text_bytes("--find-renames"));
    let mut u = copy_str("-U");
    let n = decimal_string(context_lines as u64);
    push_str(&mut u, n.as_str());
    r.push(text_bytes(u.as_str()));
    match whitespace {
        WhitespaceMode::Normal => {},
        WhitespaceMode::IgnoreSpaceChange => r.push(text_bytes("--ignore-space-change")),
        WhitespaceMode::IgnoreAllSpace => r.push(text_bytes("--ignore-all-space")),
    }
    if change.is_staged() {
        r.push(text_bytes("--cached"));
    }
    r.push(text_bytes("--"));
    r.push(copy_bytes(&change.path));
    proof {
        assert(paths_view(r@) =~= diff_args_spec(*change, context_lines, whitespace));
    }
    r
}

impl GitCli {
    /// The diff of `change` with the given context and whitespace mode.
    /// `output` is what `git diff` printed for a tracked change, or the
    /// file's contents for an untracked one.
    pub fn diff_with_options(&self, change: &Change, context_lines: u8, whitespace: WhitespaceMode, output: &[u8]) -> (d: Diff)
        ensures
            change.kind == ChangeKind::Untracked ==> parsed_from(
                d,
                DiffTarget::Worktree,
                encode_utf8(untracked_patch_text(change.path@, output@)),
                context_lines,
                whitespace,
            ),
            change.kind != ChangeKind::Untracked ==> parsed_from(
                d,
                diff_target(change.section),
                output@,
                context_lines,
                whitespace,
            ),
    {
        if change.kind.same(ChangeKind::Untracked) {
            let patch = untracked_patch(change.path.as_slice(), output);
            let d = parse_diff(DiffTarget::Worktree, patch.as_slice(), context_lines, whitespace);
            assert(parsed_from(d, DiffTarget::Worktree, patch@, context_lines, whitespace));
            return d;
        }
        let target = if change.section.same(ChangeSection::Staged) {
            DiffTarget::Staged
        } else {
            DiffTarget::Worktree
        };
        let d = parse_diff(target, output, context_lines, whitespace);
        assert(parsed_from(d, target, output@, context_lines, whitespace));
        d
    }

    /// The diff of `change` with three lines of context and whitespace
    /// compared as it is.
    pub fn diff(&self, change: &Change, output: &[u8]) -> (d: Diff)
        ensures
            change.kind == ChangeKind::Untracked ==> parsed_from(
                d,
                DiffTarget::Worktree,
                encode_utf8(untracked_patch_text(change.path@, output@)),
                3,
                WhitespaceMode::Normal,
            ),
            change.kind != ChangeKind::Untracked ==> parsed_from(
                d,
                diff_target(change.section),
                output@,
                3,
                WhitespaceMode::Normal,
            ),
    {
        self.diff_with_options(change, 3, WhitespaceMode::Normal, output)
    }

    fn apply_hunk(&self, change: &Change, diff: &Diff, hunk_index: usize, reverse: bool) -> (r: Result<Vec<u8>, GitError>)
        requires
            diff.wf(),
        ensures
            match hunk_patch_spec(*change, *diff, hunk_index as int, reverse) {
                Ok(p) => r matches Ok(v) && v@ == p,
                Err(m) => r matches Err(e) && e@ == m,
            },
    {
        if let Some(reason) = hunk_action_disabled_reason(change, diff, hunk_index, reverse) {
            return Err(GitError::new(reason));
        }
        match diff.selected_hunk_patch(hunk_index) {
            Some(patch) => Ok(patch),
            None => Err(GitError::new(copy_str("no hunk selected"))),
        }
    }

    /// The patch that stages hunk `hunk_index` of `diff` (to be checked and
    /// then applied with `git apply --cached`), or why it cannot be staged.
    pub fn stage_hunk(&self, change: &Change, diff: &Diff, hunk_index: usize) -> (r: Result<Vec<u8>, GitError>)
        requires
            diff.wf(),
        ensures
            match hunk_patch_spec(*change, *diff, hunk_index as int, false) {
                Ok(p) => r matches Ok(v) && v@ == p,
                Err(m) => r matches Err(e) && e@ == m,
            },
    {
        self.apply_hunk(change, diff, hunk_index, false)
    }

    /// The patch that unstages hunk `hunk_index` of `diff` (to be checked
    /// and then applied with `git apply --cached --reverse`), or why it
    /// cannot be unstaged.
    pub fn unstage_hunk(&self, change: &Change, diff: &Diff, hunk_index: usize) -> (r: Result<Vec<u8>, GitError>)
        requires
            diff.wf(),
        ensures
            match hunk_patch_spec(*change, *diff, hunk_index as int, true) {
                Ok(p) => r matches Ok(v) && v@ == p,
                Err(m) => r matches Err(e) && e@ == m,
            },
    {
        self.apply_hunk(change, diff, hunk_index, true)
    }
}

/// The arguments of `git apply` on a hunk patch given on standard input:
/// first the check, `apply --cached --check`, then the apply itself,
/// `apply --cached`, each with `--reverse` to unstage. The apply runs only
/// once the check succeeded, so a patch that does not fit leaves the index
/// untouched.
pub open spec fn hunk_apply_spec(reverse: bool) -> (Seq<Seq<u8>>, Seq<Seq<u8>>) {
    let tail: Seq<Seq<u8>> = if reverse {
        seq![encode_utf8("--reverse"@)]
    } else {
        Seq::empty()
    };
    (
        seq![encode_utf8("apply"@), encode_utf8("--cached"@), encode_utf8("--check"@)] + tail,
        seq![encode_utf8("apply"@), encode_utf8("--cached"@)] + tail,
    )
}

/// The check and the apply commands of a hunk patch, in the order they run.
pub fn hunk_apply_commands(reverse: bool) -> (r: (Vec<Vec<u8>>, Vec<Vec<u8>>))
    ensures
        (crate::operations::args_view(r.0@), crate::operations::args_view(r.1@)) == hunk_apply_spec(reverse),
{
    let mut check: Vec<Vec<u8>> = Vec::new();
    check.push(text_bytes("apply"));
    check.push(text_bytes("--cached"));
    check.push(text_bytes("--check"));
    let mut apply: Vec<Vec<u8>> = Vec::new();
    apply.push(text_bytes("apply"));
    apply.push(text_bytes("--cached"));
    if reverse {
        check.push(text_bytes("--reverse"));
        apply.push(text_bytes("--reverse"));
    }
    proof {
        let (c, a) = hunk_apply_spec(reverse);
        assert(crate::operations::args_view(check@) =~= c);
        assert(crate::operations::args_view(apply@) =~= a);
    }
    (check, apply)
}

// ---------------------------------------------------------------------------
// Staging, unstaging and discarding whole files
// ---------------------------------------------------------------------------

/// The views of a list of paths.
pub open spec fn paths_view(v: Seq<Vec<u8>>) -> Seq<Seq<u8>> {
    v.map_values(|p: Vec<u8>| p@)
}

/// The paths `git add` gets, in order, to stage `cs`, and the error that
/// stops staging at the first change that cannot be staged.
pub open spec fn stage_plan_spec(cs: Seq<Change>) -> (Seq<Seq<u8>>, Option<Seq<char>>)
    decreases cs.len(),
{
    if cs.len() == 0 {
        (Seq::empty(), None)
    } else {
        let c = cs[0];
        let rest = stage_plan_spec(cs.drop_first());
        match c.section {
            ChangeSection::Unstaged | ChangeSection::Untracked => (seq![c.path@] + rest.0, rest.1),
            ChangeSection::Staged => rest,
            _ => (
                Seq::empty(),
                Some("cannot stage "@ + c.spec_display_path() + " from the "@ + c.section.spec_label()
                    + " section yet"@),
            ),
        }
    }
}

/// The paths `git restore --staged` gets, in order, to unstage `cs`.
pub open spec fn unstage_plan_spec(cs: Seq<Change>) -> Seq<Seq<u8>>
    decreases cs.len(),
{
    if cs.len() == 0 {
        Seq::empty()
    } else if cs[0].section == ChangeSection::Staged {
        seq![cs[0].path@] + unstage_plan_spec(cs.drop_first())
    } else {
        unstage_plan_spec(cs.drop_first())
    }
}

/// One Git command of a discard.
#[derive(Debug, Clone, PartialEq, Eq)]
pub enum DiscardStep {
    /// `git restore --worktree -- path`
    Restore(Vec<u8>),
    /// `git clean -f -- path`
    Clean(Vec<u8>),
}

pub enum DiscardStepView {
    Restore(Seq<u8>),
    Clean(Seq<u8>),
}

impl View for DiscardStep {
    type V = DiscardStepView;

    open spec fn view(&self) -> DiscardStepView {
        match self {
            DiscardStep::Restore(p) => DiscardStepView::Restore(p@),
            DiscardStep::Clean(p) => DiscardStepView::Clean(p@),
        }
    }
}

/// The commands that discard `cs`, in order, and the error that stops
/// discarding at the first change that cannot be discarded.
pub open spec fn discard_plan_spec(cs: Seq<Change>) -> (Seq<DiscardStepView>, Option<Seq<char>>)
    decreases cs.len(),
{
    if cs.len() == 0 {
        (Seq::empty(), None)
    } else {
        let c = cs[0];
        let rest = discard_plan_spec(cs.drop_first());
        match c.section {
            ChangeSection::Unstaged => (seq![DiscardStepView::Restore(c.path@)] + rest.0, rest.1),
            ChangeSection::Untracked => (seq![DiscardStepView::Clean(c.path@)] + rest.0, rest.1),
            ChangeSection::Staged => (
                Seq::empty(),
                Some("cannot discard staged change "@ + c.spec_display_path() + "; unstage it first"@),
            ),
            _ => (Seq::empty(), Some("discard is not available for "@ + c.spec_display_path())),
        }
    }
}

/// The paths of the changes that are unstaged or untracked, in order.
pub open spec fn visible_unstaged(cs: Seq<Change>) -> Seq<Seq<u8>>
    decreases cs.len(),
{
    if cs.len() == 0 {
        Seq::empty()
    } else if cs[0].section == ChangeSection::Unstaged || cs[0].section == ChangeSection::Untracked {
        seq![cs[0].path@] + visible_unstaged(cs.drop_first())
    } else {
        visible_unstaged(cs.drop_first())
    }
}

impl GitCli {
    /// How to stage `changes`: the paths to hand to `git add`, one command
    /// each and in order, then the error to report, if any. Staged changes
    /// are skipped; a conflict or ignored file stops the plan.
    pub fn stage_plan(&self, changes: &[Change]) -> (r: (Vec<Vec<u8>>, Option<GitError>))
        ensures
            paths_view(r.0@) == stage_plan_spec(changes@).0,
            match stage_plan_spec(changes@).1 {
                Some(m) => r.1 matches Some(e) && e@ == m,
                None => r.1 is None,
            },
    {
        let mut paths: Vec<Vec<u8>> = Vec::new();
        let mut i: usize = 0;
        assert(changes@.skip(0) =~= changes@);
        while i < changes.len()
            invariant
                i <= changes.len(),
                stage_plan_spec(changes@) == (
                    paths_view(paths@) + stage_plan_spec(changes@.skip(i as int)).0,
                    stage_plan_spec(changes@.skip(i as int)).1,
                ),
            decreases changes.len() - i,
        {
            let c = &changes[i];
            proof {
                assert(changes@.skip(i as int).drop_first() =~= changes@.skip(i + 1));
                assert(changes@.skip(i as int)[0] == changes@[i as int]);
            }
            match c.section {
                ChangeSection::Unstaged | ChangeSection::Untracked => {
                    let ghost before = paths_view(paths@);
                    paths.push(copy_bytes(&c.path));
                    assert(paths_view(paths@) =~= before.push(c.path@));
                },
                ChangeSection::Staged => {},
                _ => {
                    let mut msg = copy_str("cannot stage ");
                    let shown = c.display_path();
                    push_str(&mut msg, shown.as_str());
                    push_str(&mut msg, " from the ");
                    push_str(&mut msg, c.section.label());
                    push_str(&mut msg, " section yet");
                    proof {
                        assert(stage_plan_spec(changes@.skip(i as int)).0 =~= Seq::<Seq<u8>>::empty());
                        assert(paths_view(paths@) + Seq::<Seq<u8>>::empty() =~= paths_view(paths@));
                    }
                    return (paths, Some(GitError::new(msg)));
                },
            }
            i += 1;
        }
        proof {
            assert(paths_view(paths@) + Seq::<Seq<u8>>::empty() =~= paths_view(paths@));
        }
        (paths, None)
    }

    /// The paths to hand to `git restore --staged`, one command each and in
    /// order, to unstage `changes`: those that are staged.
    pub fn unstage_plan(&self, changes: &[Change]) -> (r: Vec<Vec<u8>>)
        ensures
            paths_view(r@) == unstage_plan_spec(changes@),
    {
        let mut paths: Vec<Vec<u8>> = Vec::new();
        let mut i: usize = 0;
        assert(changes@.skip(0) =~= changes@);
        while i < changes.len()
            invariant
                i <= changes.len(),
                unstage_plan_spec(changes@) == paths_view(paths@) + unstage_plan_spec(changes@.skip(i as int)),
            decreases changes.len() - i,
        {
            let c = &changes[i];
            proof {
                assert(changes@.skip(i as int).drop_first() =~= changes@.skip(i + 1));
                assert(changes@.skip(i as int)[0] == changes@[i as int]);
            }
            if c.is_staged() {
                let ghost before = paths_view(paths@);
                paths.push(copy_bytes(&c.path));
                assert(paths_view(paths@) =~= before.push(c.path@));
            }
            i += 1;
        }
        assert(paths_view(paths@) + Seq::<Seq<u8>>::empty() =~= paths_view(paths@));
        paths
    }

    /// How to discard `changes`: the Git commands to run, in order, then the
    /// error to report, if any. Unstaged changes are restored from the
    /// index, untracked files removed; a staged, conflicted or ignored file
    /// stops the plan.
    pub fn discard_plan(&self, changes: &[Change]) -> (r: (Vec<DiscardStep>, Option<GitError>))
        ensures
            r.0@.map_values(|s: DiscardStep| s@) == discard_plan_spec(changes@).0,
            match discard_plan_spec(changes@).1 {
                Some(m) => r.1 matches Some(e) && e@ == m,
                None => r.1 is None,
            },
    {
        let mut steps: Vec<DiscardStep> = Vec::new();
        let mut i: usize = 0;
        assert(changes@.skip(0) =~= changes@);
        while i < changes.len()
            invariant
                i <= changes.len(),
                discard_plan_spec(changes@) == (
                    steps@.map_values(|s: DiscardStep| s@) + discard_plan_spec(changes@.skip(i as int)).0,
                    discard_plan_spec(changes@.skip(i as int)).1,
                ),
            decreases changes.len() - i,
        {
            let c = &changes[i];
            proof {
                assert(changes@.skip(i as int).drop_first() =~= changes@.skip(i + 1));
                assert(changes@.skip(i as int)[0] == changes@[i as int]);
            }
            let ghost before = steps@.map_values(|s: DiscardStep| s@);
            match c.section {
                ChangeSection::Unstaged => {
                    steps.push(DiscardStep::Restore(copy_bytes(&c.path)));
                    assert(steps@.map_values(|s: DiscardStep| s@) =~= before.push(
                        DiscardStepView::Restore(c.path@),
                    ));
                },
                ChangeSection::Untracked => {
                    steps.push(DiscardStep::Clean(copy_bytes(&c.path)));
                    assert(steps@.map_values(|s: DiscardStep| s@) =~= before.push(
                        DiscardStepView::Clean(c.path@),
                    ));
                },
                ChangeSection::Staged => {
                    let mut msg = copy_str("cannot discard staged change ");
                    let shown = c.display_path();
                    push_str(&mut msg, shown.as_str());
                    push_str(&mut msg, "; unstage it first");
                    proof {
                        assert(before + Seq::<DiscardStepView>::empty() =~= before);
                    }
                    return (steps, Some(GitError::new(msg)));
                },
                _ => {
                    let mut msg = copy_str("discard is not available for ");
                    let shown = c.display_path();
                    push_str(&mut msg, shown.as_str());
                    proof {
                        assert(before + Seq::<DiscardStepView>::empty() =~= before);
                    }
                    return (steps, Some(GitError::new(msg)));
                },
            }
            i += 1;
        }
        proof {
            let v = steps@.map_values(|s: DiscardStep| s@);
            assert(v + Seq::<DiscardStepView>::empty() =~= v);
        }
        (steps, None)
    }

    /// The paths that staging everything visible hands to `git add`: those
    /// of the unstaged and untracked changes, in order.
    pub fn stage_all_visible(&self, changes: &[Change]) -> (r: Vec<Vec<u8>>)
        ensures
            paths_view(r@) == visible_unstaged(changes@),
            paths_view(r@) == stage_plan_spec(visible_changes(changes@)).0,
            stage_plan_spec(visible_changes(changes@)).1 is None,
    {
        let mut paths: Vec<Vec<u8>> = Vec::new();
        let mut i: usize = 0;
        assert(changes@.skip(0) =~= changes@);
        while i < changes.len()
            invariant
                i <= changes.len(),
                visible_unstaged(changes@) == paths_view(paths@) + visible_unstaged(changes@.skip(i as int)),
            decreases changes.len() - i,
        {
            let c = &changes[i];
            proof {
                assert(changes@.skip(i as int).drop_first() =~= changes@.skip(i + 1));
                assert(changes@.skip(i as int)[0] == changes@[i as int]);
            }
            if c.is_unstaged() || c.is_untracked() {
                let ghost before = paths_view(paths@);
                paths.push(copy_bytes(&c.path));
                assert(paths_view(paths@) =~= before.push(c.path@));
            }
            i += 1;
        }
        assert(paths_view(paths@) + Seq::<Seq<u8>>::empty() =~= paths_view(paths@));
        proof {
            lemma_visible_stage(changes@);
        }
        paths
    }
}

/// The unstaged and untracked changes of `cs`, in order.
pub open spec fn visible_changes(cs: Seq<Change>) -> Seq<Change>
    decreases cs.len(),
{
    if cs.len() == 0 {
        Seq::empty()
    } else if cs[0].section == ChangeSection::Unstaged || cs[0].section == ChangeSection::Untracked {
        seq![cs[0]] + visible_changes(cs.drop_first())
    } else {
        visible_changes(cs.drop_first())
    }
}

/// Staging the visible changes stages exactly their paths and never fails.
pub proof fn lemma_visible_stage(cs: Seq<Change>)
    ensures
        stage_plan_spec(visible_changes(cs)).0 == visible_unstaged(cs),
        stage_plan_spec(visible_changes(cs)).1 is None,
    decreases cs.len(),
{
    if cs.len() > 0 {
        lemma_visible_stage(cs.drop_first());
        let v = visible_changes(cs);
        if cs[0].section == ChangeSection::Unstaged || cs[0].section == ChangeSection::Untracked {
            assert(v.drop_first() =~= visible_changes(cs.drop_first()));
        }
    }
}

/// Some change is staged.
pub open spec fn any_staged(cs: Seq<Change>) -> bool {
    exists|i: int| 0 <= i < cs.len() && cs[i].section == ChangeSection::Staged
}

/// Whether a commit may go ahead: `Err` when no change of the fresh
/// snapshot is staged.
pub fn commit_precheck(changes: &[Change]) -> (r: Result<(), GitError>)
    ensures
        any_staged(changes@) <==> r is Ok,
        r matches Err(e) ==> e@ == "there are no staged changes to commit"@,
{
    let mut i: usize = 0;
    while i < changes.len()
        invariant
            i <= changes.len(),
            forall|k: int| 0 <= k < i ==> changes@[k].section != ChangeSection::Staged,
        decreases changes.len() - i,
    {
        if changes[i].is_staged() {
            return Ok(());
        }
        i += 1;
    }
    Err(GitError::new(copy_str("there are no staged changes to commit")))
}

// ---------------------------------------------------------------------------
// Looking changes up again
// ---------------------------------------------------------------------------

/// Index of the last change of `cs` with id `id`.
pub open spec fn last_with_id(cs: Seq<Change>, id: usize) -> Option<int>
    decreases cs.len(),
{
    if cs.len() == 0 {
        None
    } else if cs.last().id.0 == id {
        Some(cs.len() - 1)
    } else {
        last_with_id(cs.drop_last(), id)
    }
}

/// Index of the last change of `cs` with key `key`.
pub open spec fn last_with_key(cs: Seq<Change>, key: ChangeKeyView) -> Option<int>
    decreases cs.len(),
{
    if cs.len() == 0 {
        None
    } else if cs.last().key@ == key {
        Some(cs.len() - 1)
    } else {
        last_with_key(cs.drop_last(), key)
    }
}

proof fn lemma_last_with_key(cs: Seq<Change>, key: ChangeKeyView, j: int)
    requires
        -1 <= j < cs.len(),
        forall|k: int| j < k < cs.len() ==> cs[k].key@ != key,
        j >= 0 ==> cs[j].key@ == key,
    ensures
        last_with_key(cs, key) == (if j >= 0 { Some(j) } else { None::<int> }),
    decreases cs.len(),
{
    if cs.len() > 0 && j < cs.len() - 1 {
        lemma_last_with_key(cs.drop_last(), key, j);
    }
}

/// The changes found for `ids`, in the order of `ids`: for each id the last
/// change that carries it, and nothing for an id that none carries.
pub open spec fn by_ids(cs: Seq<Change>, ids: Seq<ChangeId>) -> Seq<ChangeView>
    decreases ids.len(),
{
    if ids.len() == 0 {
        Seq::empty()
    } else {
        by_ids(cs, ids.drop_last()) + match last_with_id(cs, ids.last().0) {
            Some(j) => seq![cs[j]@],
            None => Seq::empty(),
        }
    }
}

/// The changes found for `keys`, in the order of `keys`: for each key the
/// last change that carries it, and nothing for a key that none carries.
pub open spec fn by_keys(cs: Seq<Change>, keys: Seq<ChangeKey>) -> Seq<ChangeView>
    decreases keys.len(),
{
    if keys.len() == 0 {
        Seq::empty()
    } else {
        by_keys(cs, keys.drop_last()) + match last_with_key(cs, keys.last()@) {
            Some(j) => seq![cs[j]@],
            None => Seq::empty(),
        }
    }
}

fn find_last_key(changes: &[Change], key: &ChangeKey) -> (r: Option<usize>)
    ensures
        opt_index(r) == last_with_key(changes@, key@),
        r matches Some(j) ==> j < changes.len(),
{
    let mut k = changes.len();
    while k > 0
        invariant
            k <= changes.len(),
            forall|m: int| k <= m < changes.len() ==> changes@[m].key@ != key@,
        decreases k,
    {
        if changes[k - 1].key.equals(key) {
            proof {
                lemma_last_with_key(changes@, key@, k - 1);
            }
            return Some(k - 1);
        }
        k -= 1;
    }
    proof {
        lemma_last_with_key(changes@, key@, -1);
    }
    None
}

/// `usize` keys are ordered as the map of changes by id needs.
proof fn lemma_ids_ordered()
    ensures
        vstd::laws_cmp::obeys_cmp::<usize>(),
{
    broadcast use vstd::laws_cmp::group_laws_cmp;
}

/// `m` holds, for `id`, the last change of `cs` with that id, and nothing
/// when no change of `cs` has it.
pub open spec fn holds_last(m: Map<usize, Change>, cs: Seq<Change>, id: usize) -> bool {
    match last_with_id(cs, id) {
        Some(j) => m.contains_key(id) && m[id]@ == cs[j]@,
        None => !m.contains_key(id),
    }
}

/// The changes with the given ids, in the order of `ids`; where several
/// changes share an id the last one counts, and unknown ids are skipped.
/// The changes are first gathered in a map by id, later ones replacing
/// earlier ones.
pub fn changes_by_id(changes: &[Change], ids: &[ChangeId]) -> (r: Vec<Change>)
    ensures
        changes_view(r@) == by_ids(changes@, ids@),
{
    broadcast use vstd::std_specs::btree::group_btree_axioms;

    proof {
        lemma_ids_ordered();
    }
    let mut map: BTreeMap<usize, Change> = BTreeMap::new();
    let mut k: usize = 0;
    while k < changes.len()
        invariant
            k <= changes.len(),
            forall|id: usize| #[trigger] holds_last(map@, changes@.take(k as int), id),
        decreases changes.len() - k,
    {
        let ghost before = map@;
        let ghost old_k = k as int;
        let c = changes[k].copy();
        map.insert(changes[k].id.0, c);
        k += 1;
        proof {
            let t = changes@.take(k as int);
            assert(t.drop_last() =~= changes@.take(old_k));
            assert(t.last() == changes@[old_k]);
            assert forall|id: usize| #[trigger] holds_last(map@, t, id) by {
                assert(holds_last(before, changes@.take(old_k), id));
                if id != changes@[old_k].id.0 {
                    assert(last_with_id(t, id) == last_with_id(changes@.take(old_k), id));
                    if let Some(j) = last_with_id(t, id) {
                        lemma_last_with_id_bound(changes@.take(old_k), id);
                        assert(t[j] == changes@.take(old_k)[j]);
                    }
                } else {
                    assert(last_with_id(t, id) == Some(old_k));
                }
            }
        }
    }
    assert(changes@.take(changes.len() as int) =~= changes@);
    let mut out: Vec<Change> = Vec::new();
    let mut i: usize = 0;
    while i < ids.len()
        invariant
            i <= ids.len(),
            forall|id: usize| #[trigger] holds_last(map@, changes@, id),
            changes_view(out@) == by_ids(changes@, ids@.take(i as int)),
        decreases ids.len() - i,
    {
        let ghost before = changes_view(out@);
        proof {
            assert(ids@.take(i + 1).drop_last() =~= ids@.take(i as int));
            assert(ids@.take(i + 1).last() == ids@[i as int]);
            let t = ids@.take(i + 1);
            assert(by_ids(changes@, t) == by_ids(changes@, t.drop_last()) + match last_with_id(changes@, t.last().0) {
                Some(j) => seq![changes@[j]@],
                None => Seq::<ChangeView>::empty(),
            });
        }
        let id = ids[i].0;
        proof {
            assert(holds_last(map@, changes@, id));
        }
        match map.get(&id) {
            Some(c) => {
                out.push(c.copy());
                proof {
                    assert(map@.contains_key(id));
                    let j = last_with_id(changes@, id)->0;
                    assert(changes_view(out@) =~= before + seq![changes@[j]@]);
                }
            },
            None => {
                assert(!map@.contains_key(id));
                assert(before + Seq::<ChangeView>::empty() =~= before);
            },
        }
        i += 1;
    }
    assert(ids@.take(ids.len() as int) =~= ids@);
    out
}

proof fn lemma_last_with_id_bound(cs: Seq<Change>, id: usize)
    ensures
        last_with_id(cs, id) matches Some(j) ==> 0 <= j < cs.len(),
    decreases cs.len(),
{
    if cs.len() > 0 {
        lemma_last_with_id_bound(cs.drop_last(), id);
    }
}

/// The changes with the given keys, in the order of `keys`; where several
/// changes share a key the last one counts, and unknown keys are skipped.
/// Each key is looked up by a scan with `ChangeKey::equals`, which compares
/// paths by their components; a map ordered by the derived `Ord` of the
/// key would compare the path bytes instead.
pub fn changes_by_key(changes: &[Change], keys: &[ChangeKey]) -> (r: Vec<Change>)
    ensures
        changes_view(r@) == by_keys(changes@, keys@),
{
    let mut out: Vec<Change> = Vec::new();
    let mut i: usize = 0;
    while i < keys.len()
        invariant
            i <= keys.len(),
            changes_view(out@) == by_keys(changes@, keys@.take(i as int)),
        decreases keys.len() - i,
    {
        let ghost before = changes_view(out@);
        proof {
            assert(keys@.take(i + 1).drop_last() =~= keys@.take(i as int));
            assert(keys@.take(i + 1).last() == keys@[i as int]);
            let t = keys@.take(i + 1);
            assert(by_keys(changes@, t) == by_keys(changes@, t.drop_last()) + match last_with_key(changes@, t.last()@) {
                Some(j) => seq![changes@[j]@],
                None => Seq::<ChangeView>::empty(),
            });
        }
        match find_last_key(changes, &keys[i]) {
            Some(j) => {
                out.push(changes[j].copy());
                assert(changes_view(out@) =~= before + seq![changes@[j as int]@]);
            },
            None => {
                assert(before + Seq::<ChangeView>::empty() =~= before);
            },
        }
        i += 1;
    }
    assert(keys@.take(keys.len() as int) =~= keys@);
    out
}

} // verus!
