//! What the explorer panels make of Git's answers: each method takes what a
//! Git command printed (or the files it read) and builds the panel's rows.
use super::diff::{parse_diff, parsed_from, Diff, WhitespaceMode};
use super::explore::{
    branch_list_spec, branch_views, conflict_stages_spec, log_list_spec, log_views,
    opt_text, parse_branch_list, parse_conflict_stages, parse_log_list, parse_stash_list,
    parse_submodule_config, parse_worktree_list, redact_url, spec_redact_url, stage_views,
    stash_list_spec, stash_views, submodule_list_matches, submodule_views, worktree_list_spec,
    worktree_views, BranchEntry, ConflictDetail, LogEntry, RebaseState, RemoteEntry, StashEntry,
    SubmoduleEntry, UpstreamBranch, WorktreeEntry,
};
use super::repo::GitCli;
use super::{DiffTarget, GitError};
use crate::text::{
    bytes_range, chars_contains, chars_of, chars_range, copy_str, find_char, lines, lossy_chars, lossy_text,
    opt_u64, parse_unsigned, parse_unsigned_range, push_str, spans_describe, string_of,
    string_of_range, text_lines, trim, trim_range, utf8_text, word_spans, words, contains_seq,
    find_elem,
};
use vstd::prelude::*;
use vstd::utf8::{decode_utf8, encode_utf8, valid_utf8};
use crate::operations::args_view;
use crate::text::text_bytes;

verus! {

// ---------------------------------------------------------------------------
// Plain text answers
// ---------------------------------------------------------------------------

/// Output decoded lossily and trimmed.
pub open spec fn trimmed_spec(out: Seq<u8>) -> Seq<char> {
    trim(lossy_chars(out))
}

/// The whole output of a command as trimmed text (an object name, a path,
/// a count).
pub fn trimmed_text(stdout: &[u8]) -> (r: String)
    ensures
        r@ == trimmed_spec(stdout@),
{
    let s = lossy_text(stdout);
    let t = chars_of(s.as_str());
    let (a, b) = trim_range(&t, 0, t.len());
    assert(t@.subrange(0, t@.len() as int) =~= t@);
    string_of_range(&t, a, b)
}

/// The non-empty trimmed lines of `ls`, in order.
pub open spec fn trimmed_nonempty(ls: Seq<Seq<char>>) -> Seq<Seq<char>>
    decreases ls.len(),
{
    if ls.len() == 0 {
        Seq::empty()
    } else if trim(ls.last()).len() == 0 {
        trimmed_nonempty(ls.drop_last())
    } else {
        trimmed_nonempty(ls.drop_last()).push(trim(ls.last()))
    }
}

/// The views of a list of strings.
pub open spec fn strings_view(v: Seq<String>) -> Seq<Seq<char>> {
    v.map_values(|s: String| s@)
}

/// The trimmed, non-empty lines of an output (remote names, remote URLs).
pub fn trimmed_lines(stdout: &[u8]) -> (r: Vec<String>)
    ensures
        strings_view(r@) == trimmed_nonempty(lines(lossy_chars(stdout@))),
{
    let (text, spans) = text_lines(stdout);
    let ghost ls = lines(lossy_chars(stdout@));
    let mut out: Vec<String> = Vec::new();
    let mut k: usize = 0;
    while k < spans.len()
        invariant
            spans_describe(text@, spans@, ls),
            k <= spans.len(),
            strings_view(out@) == trimmed_nonempty(ls.take(k as int)),
        decreases spans.len() - k,
    {
        let (a, b) = spans[k];
        let (ta, tb) = trim_range(&text, a, b);
        proof {
            assert(ls.take(k + 1).drop_last() =~= ls.take(k as int));
            assert(ls.take(k + 1).last() == ls[k as int]);
        }
        if ta < tb {
            let ghost before = strings_view(out@);
            out.push(string_of_range(&text, ta, tb));
            assert(strings_view(out@) =~= before.push(trim(ls[k as int])));
        }
        k += 1;
    }
    assert(ls.take(spans.len() as int) =~= ls);
    out
}

// ---------------------------------------------------------------------------
// Remotes and upstreams
// ---------------------------------------------------------------------------

pub struct RemoteEntryView {
    pub name: Seq<char>,
    pub fetch_url: Option<Seq<char>>,
    pub push_url: Option<Seq<char>>,
}

impl View for RemoteEntry {
    type V = RemoteEntryView;

    open spec fn view(&self) -> RemoteEntryView {
        RemoteEntryView { name: self.name@, fetch_url: opt_text(self.fetch_url), push_url: opt_text(self.push_url) }
    }
}

/// The first URL that `git remote get-url --all` printed, redacted.
pub open spec fn first_url(out: Seq<u8>) -> Option<Seq<char>> {
    let urls = trimmed_nonempty(lines(lossy_chars(out)));
    if urls.len() == 0 {
        None
    } else {
        Some(spec_redact_url(urls[0]))
    }
}

/// The row of the Remotes panel for `name`, from the outputs of `git remote
/// get-url --all` and `git remote get-url --all --push`.
pub fn remote_entry(name: &str, fetch_out: &[u8], push_out: &[u8]) -> (r: RemoteEntry)
    ensures
        r@ == (RemoteEntryView { name: name@, fetch_url: first_url(fetch_out@), push_url: first_url(push_out@) }),
{
    let fetch = trimmed_lines(fetch_out);
    let push = trimmed_lines(push_out);
    let fetch_url = if fetch.len() > 0 {
        Some(redact_url(fetch[0].as_str()))
    } else {
        None
    };
    let push_url = if push.len() > 0 {
        Some(redact_url(push[0].as_str()))
    } else {
        None
    };
    RemoteEntry { name: copy_str(name), fetch_url, push_url }
}

pub struct UpstreamBranchView {
    pub remote: Seq<char>,
    pub branch: Seq<char>,
    pub display: Seq<char>,
}

impl View for UpstreamBranch {
    type V = UpstreamBranchView;

    open spec fn view(&self) -> UpstreamBranchView {
        UpstreamBranchView { remote: self.remote@, branch: self.branch@, display: self.display@ }
    }
}

/// The upstream that `git rev-parse --abbrev-ref --symbolic-full-name @{u}`
/// names: split at its first `/` into remote and branch.
pub open spec fn upstream_spec(out: Seq<u8>) -> Result<UpstreamBranchView, Seq<char>> {
    let d = trimmed_spec(out);
    match find_elem(d, '/') {
        Some(i) => Ok(UpstreamBranchView { remote: d.take(i), branch: d.skip(i + 1), display: d }),
        None => Err("current branch has no remote upstream"@),
    }
}

/// The number of commits that `git rev-list --count` printed.
pub open spec fn rev_count_spec(revspec: Seq<char>, out: Seq<u8>) -> Result<u32, Seq<char>> {
    match parse_unsigned(trimmed_spec(out), u32::MAX as int) {
        Some(n) => Ok(n as u32),
        None => Err("git returned invalid rev count for "@ + revspec),
    }
}

/// What pushing the current branch does once the distances to its upstream
/// are known: nothing when there is nothing to push, a refusal when the
/// upstream has commits that `HEAD` lacks, else a push to this destination.
pub open spec fn push_spec(upstream: UpstreamBranchView, behind: u32, upstream_ahead: u32) -> Result<Option<Seq<char>>, Seq<char>> {
    if upstream_ahead > 0 {
        Err(
            "refusing to push: "@ + upstream.display + " is "@ + crate::text::decimal(upstream_ahead as nat)
                + " commit(s) ahead of HEAD; update first"@,
        )
    } else if behind == 0 {
        Ok(None)
    } else {
        Ok(Some("HEAD:refs/heads/"@ + upstream.branch))
    }
}

/// How a fast-forward update of the current branch ends once `git fetch`
/// ran: a merge with `--ff-only` only when the upstream is ahead.
pub open spec fn needs_merge(behind: u32) -> bool {
    behind != 0
}

// ---------------------------------------------------------------------------
// Rebases
// ---------------------------------------------------------------------------

/// The contents of the files of a rebase state directory that could be
/// read, each as raw bytes (`None` where the file could not be read).
pub struct RebaseFiles {
    pub head_name: Option<Vec<u8>>,
    pub onto: Option<Vec<u8>>,
    pub stopped_sha: Option<Vec<u8>>,
    pub msgnum: Option<Vec<u8>>,
    pub end: Option<Vec<u8>>,
    pub next: Option<Vec<u8>>,
    pub last: Option<Vec<u8>>,
}

/// The text of an optional state file: its contents when they are UTF-8,
/// trimmed, and nothing when that leaves them empty.
pub open spec fn optional_text(b: Option<Vec<u8>>) -> Option<Seq<char>> {
    match b {
        None => None,
        Some(bytes) => if valid_utf8(bytes@) && trim(decode_utf8(bytes@)).len() > 0 {
            Some(trim(decode_utf8(bytes@)))
        } else {
            None
        },
    }
}

/// `optional_text` of one file.
pub fn read_optional_text(b: &Option<Vec<u8>>) -> (r: Option<String>)
    ensures
        opt_text(r) == optional_text(*b),
{
    match b {
        None => None,
        Some(bytes) => match utf8_text(bytes.as_slice()) {
            None => None,
            Some(s) => {
                let t = chars_of(s.as_str());
                let (a, c) = trim_range(&t, 0, t.len());
                assert(t@.subrange(0, t@.len() as int) =~= t@);
                if a == c {
                    None
                } else {
                    Some(string_of_range(&t, a, c))
                }
            },
        },
    }
}

pub struct RebaseStateView {
    pub kind: Seq<char>,
    pub head_name: Option<Seq<char>>,
    pub onto: Option<Seq<char>>,
    pub current: Option<Seq<char>>,
    pub msgnum: Option<Seq<char>>,
    pub end: Option<Seq<char>>,
}

impl View for RebaseState {
    type V = RebaseStateView;

    open spec fn view(&self) -> RebaseStateView {
        RebaseStateView {
            kind: self.kind@,
            head_name: opt_text(self.head_name),
            onto: opt_text(self.onto),
            current: opt_text(self.current),
            msgnum: opt_text(self.msgnum),
            end: opt_text(self.end),
        }
    }
}

/// The rebase in progress, if any: a merge-backend rebase when its state
/// directory exists, else an apply-backend one.
pub open spec fn rebase_spec(merge: Option<RebaseFiles>, apply: Option<RebaseFiles>) -> Option<RebaseStateView> {
    match merge {
        Some(m) => Some(
            RebaseStateView {
                kind: "merge"@,
                head_name: optional_text(m.head_name),
                onto: optional_text(m.onto),
                current: optional_text(m.stopped_sha),
                msgnum: optional_text(m.msgnum),
                end: optional_text(m.end),
            },
        ),
        None => match apply {
            Some(a) => Some(
                RebaseStateView {
                    kind: "apply"@,
                    head_name: optional_text(a.head_name),
                    onto: optional_text(a.onto),
                    current: optional_text(a.next),
                    msgnum: optional_text(a.next),
                    end: optional_text(a.last),
                },
            ),
            None => None,
        },
    }
}

// ---------------------------------------------------------------------------
// Submodules
// ---------------------------------------------------------------------------

/// The object name in the second column of `git ls-files --stage`.
pub open spec fn recorded_oid_spec(out: Seq<u8>) -> Option<Seq<char>> {
    let ws = words(lossy_chars(out));
    if ws.len() > 1 {
        Some(ws[1])
    } else {
        None
    }
}

/// The object name a submodule's index records for it, from `git ls-files
/// --stage -- path`.
pub fn recorded_oid(stdout: &[u8]) -> (r: Option<String>)
    ensures
        opt_text(r) == recorded_oid_spec(stdout@),
{
    let s = lossy_text(stdout);
    let t = chars_of(s.as_str());
    let spans = word_spans(&t, 0, t.len());
    assert(t@.subrange(0, t@.len() as int) =~= t@);
    if spans.len() > 1 {
        let (a, b) = spans[1];
        Some(string_of_range(&t, a, b))
    } else {
        None
    }
}

/// A submodule row completed with what was learnt about its checkout:
/// whether it is initialized, and the outputs (where the commands
/// succeeded) of `git ls-files --stage`, and, in the submodule,
/// `git rev-parse --short HEAD` and `git status --porcelain=v2 -z`.
pub open spec fn submodule_state_spec(
    e: super::explore::SubmoduleEntryView,
    initialized: bool,
    stage_out: Option<Seq<u8>>,
    head_out: Option<Seq<u8>>,
    status_out: Option<Seq<u8>>,
) -> super::explore::SubmoduleEntryView {
    super::explore::SubmoduleEntryView {
        name: e.name,
        path: e.path,
        url: e.url,
        recorded_oid: match stage_out {
            Some(o) => recorded_oid_spec(o),
            None => None,
        },
        checked_out_oid: if initialized {
            match head_out {
                Some(o) => Some(trimmed_spec(o)),
                None => None,
            }
        } else {
            e.checked_out_oid
        },
        initialized,
        dirty: if initialized {
            match status_out {
                Some(o) => o.len() > 0,
                None => false,
            }
        } else {
            e.dirty
        },
    }
}

pub open spec fn opt_bytes(o: Option<Vec<u8>>) -> Option<Seq<u8>> {
    match o {
        Some(v) => Some(v@),
        None => None,
    }
}

/// Completes a submodule row; see `submodule_state_spec`.
pub fn submodule_state(
    entry: SubmoduleEntry,
    initialized: bool,
    stage_out: Option<Vec<u8>>,
    head_out: Option<Vec<u8>>,
    status_out: Option<Vec<u8>>,
) -> (r: SubmoduleEntry)
    ensures
        r@ == submodule_state_spec(entry@, initialized, opt_bytes(stage_out), opt_bytes(head_out), opt_bytes(status_out)),
{
    let mut e = entry;
    e.initialized = initialized;
    e.recorded_oid = match &stage_out {
        Some(o) => recorded_oid(o.as_slice()),
        None => None,
    };
    if initialized {
        e.checked_out_oid = match &head_out {
            Some(o) => Some(trimmed_text(o.as_slice())),
            None => None,
        };
        e.dirty = match &status_out {
            Some(o) => o.len() > 0,
            None => false,
        };
    }
    e
}

// ---------------------------------------------------------------------------
// The panels
// ---------------------------------------------------------------------------

/// A log that Git refused because the branch has no commits yet shows as
/// empty.
pub open spec fn unborn_branch(message: Seq<char>) -> bool {
    contains_seq(message, "does not have any commits"@)
}

impl GitCli {
    /// The Stash panel rows from `git stash list --format=%gd%x1f%h%x1f%cr%x1f%gs`.
    pub fn stash_list(&self, stdout: &[u8]) -> (r: Vec<StashEntry>)
        ensures
            stash_views(r@) == stash_list_spec(stdout@),
    {
        parse_stash_list(stdout)
    }

    /// The Branches panel rows from `git for-each-ref` over local and
    /// remote branches.
    pub fn branch_list(&self, stdout: &[u8]) -> (r: Vec<BranchEntry>)
        ensures
            branch_views(r@) == branch_list_spec(stdout@),
    {
        parse_branch_list(stdout)
    }

    /// The Log panel rows from the outcome of `git log`: its output when it
    /// ran, no rows when it failed because the branch has no commits yet,
    /// and its error otherwise.
    pub fn log_list(&self, outcome: Result<Vec<u8>, GitError>) -> (r: Result<Vec<LogEntry>, GitError>)
        ensures
            match outcome {
                Ok(out) => r matches Ok(v) && log_views(v@) == log_list_spec(out@),
                Err(e) => if unborn_branch(e@) {
                    r matches Ok(v) && v.len() == 0
                } else {
                    r matches Err(e2) && e2@ == e@
                },
            },
    {
        match outcome {
            Ok(out) => Ok(parse_log_list(out.as_slice())),
            Err(e) => {
                let text = e.to_string();
                let t = chars_of(text.as_str());
                let needle = chars_of("does not have any commits");
                if chars_contains(&t, &needle) {
                    Ok(Vec::new())
                } else {
                    Err(e)
                }
            },
        }
    }

    /// The names of the remotes that `git remote` printed.
    pub fn remote_names(&self, stdout: &[u8]) -> (r: Vec<String>)
        ensures
            strings_view(r@) == trimmed_nonempty(lines(lossy_chars(stdout@))),
    {
        trimmed_lines(stdout)
    }

    /// The Remotes panel rows: for each name, in order, the first fetch and
    /// push URL (redacted) from the outputs of `git remote get-url --all`
    /// and `git remote get-url --all --push` for it.
    pub fn remote_list(&self, names: &[String], fetch_outs: &[Vec<u8>], push_outs: &[Vec<u8>]) -> (r: Vec<RemoteEntry>)
        requires
            fetch_outs.len() == names.len(),
            push_outs.len() == names.len(),
        ensures
            r.len() == names.len(),
            forall|i: int|
                0 <= i < names.len() ==> (#[trigger] r@[i])@ == (RemoteEntryView {
                    name: names@[i]@,
                    fetch_url: first_url(fetch_outs@[i]@),
                    push_url: first_url(push_outs@[i]@),
                }),
    {
        let mut out: Vec<RemoteEntry> = Vec::new();
        let mut i: usize = 0;
        while i < names.len()
            invariant
                fetch_outs.len() == names.len(),
                push_outs.len() == names.len(),
                i <= names.len(),
                out.len() == i,
                forall|k: int|
                    0 <= k < i ==> (#[trigger] out@[k])@ == (RemoteEntryView {
                        name: names@[k]@,
                        fetch_url: first_url(fetch_outs@[k]@),
                        push_url: first_url(push_outs@[k]@),
                    }),
            decreases names.len() - i,
        {
            out.push(remote_entry(names[i].as_str(), fetch_outs[i].as_slice(), push_outs[i].as_slice()));
            i += 1;
        }
        out
    }

    /// The linked work trees from `git worktree list --porcelain -z`, the
    /// one at this repository's root marked current.
    pub fn worktree_list(&self, stdout: &[u8]) -> (r: Vec<WorktreeEntry>)
        ensures
            worktree_views(r@) == worktree_list_spec(stdout@, self@.root),
    {
        parse_worktree_list(stdout, self.root())
    }

    /// The submodules declared in `.gitmodules`, from `git config -z --file
    /// .gitmodules --get-regexp ^submodule\..*` (`None` when the file does
    /// not exist), sorted by name.
    pub fn submodule_list(&self, config: Option<&[u8]>) -> (r: Vec<SubmoduleEntry>)
        ensures
            config is None ==> r.len() == 0,
            config matches Some(c) ==> submodule_list_matches(c@, submodule_views(r@)),
    {
        match config {
            None => Vec::new(),
            Some(c) => parse_submodule_config(c),
        }
    }

    /// The unmerged stages of `path` from `git ls-files -u -z -- path`.
    pub fn conflict_detail(&self, path: &[u8], stdout: &[u8]) -> (r: ConflictDetail)
        ensures
            r.path@ == path@,
            stage_views(r.stages@) == conflict_stages_spec(stdout@),
    {
        let p = bytes_range(path, 0, path.len());
        assert(path@.subrange(0, path@.len() as int) =~= path@);
        ConflictDetail { path: p, stages: parse_conflict_stages(stdout) }
    }

    /// The patch of a stash entry from `git stash show --patch`.
    pub fn stash_patch(&self, stdout: &[u8]) -> (d: Diff)
        ensures
            parsed_from(d, DiffTarget::Worktree, stdout@, 3, WhitespaceMode::Normal),
    {
        let d = parse_diff(DiffTarget::Worktree, stdout, 3, WhitespaceMode::Normal);
        assert(parsed_from(d, DiffTarget::Worktree, stdout@, 3, WhitespaceMode::Normal));
        d
    }

    /// The patch of a commit from `git show --patch --format=fuller`.
    pub fn commit_patch(&self, stdout: &[u8]) -> (d: Diff)
        ensures
            parsed_from(d, DiffTarget::Worktree, stdout@, 3, WhitespaceMode::Normal),
    {
        let d = parse_diff(DiffTarget::Worktree, stdout, 3, WhitespaceMode::Normal);
        assert(parsed_from(d, DiffTarget::Worktree, stdout@, 3, WhitespaceMode::Normal));
        d
    }

    /// The number of commits in `revspec` from `git rev-list --count`.
    pub fn rev_count(&self, revspec: &str, stdout: &[u8]) -> (r: Result<u32, GitError>)
        ensures
            match rev_count_spec(revspec@, stdout@) {
                Ok(n) => r == Ok::<u32, GitError>(n),
                Err(m) => r matches Err(e) && e@ == m,
            },
    {
        let s = lossy_text(stdout);
        let t = chars_of(s.as_str());
        let (a, b) = trim_range(&t, 0, t.len());
        assert(t@.subrange(0, t@.len() as int) =~= t@);
        match parse_unsigned_range(&t, a, b, 4294967295u64) {
            Some(n) => Ok(n as u32),
            None => {
                let mut msg = copy_str("git returned invalid rev count for ");
                push_str(&mut msg, revspec);
                Err(GitError::new(msg))
            },
        }
    }

    /// The upstream of the current branch from `git rev-parse --abbrev-ref
    /// --symbolic-full-name @{u}`.
    #[verifier::spinoff_prover]
    #[verifier::rlimit(40)]
    pub fn current_upstream(&self, stdout: &[u8]) -> (r: Result<UpstreamBranch, GitError>)
        ensures
            match upstream_spec(stdout@) {
                Ok(v) => r matches Ok(u) && u@ == v,
                Err(m) => r matches Err(e) && e@ == m,
            },
    {
        let s = lossy_text(stdout);
        let t = chars_of(s.as_str());
        let (a, b) = trim_range(&t, 0, t.len());
        assert(t@.subrange(0, t@.len() as int) =~= t@);
        let ghost d = t@.subrange(a as int, b as int);
        match find_char(&t, a, b, '/') {
            Some(i) => {
                proof {
                    assert(d.take(i as int) =~= t@.subrange(a as int, a + i));
                    assert(d.skip(i + 1) =~= t@.subrange(a + i + 1, b as int));
                }
                Ok(
                    UpstreamBranch {
                        remote: string_of_range(&t, a, a + i),
                        branch: string_of_range(&t, a + i + 1, b),
                        display: string_of_range(&t, a, b),
                    },
                )
            },
            None => Err(GitError::new(copy_str("current branch has no remote upstream"))),
        }
    }

    /// An abbreviated object name from `git rev-parse --short`.
    pub fn rev_short(&self, stdout: &[u8]) -> (r: String)
        ensures
            r@ == trimmed_spec(stdout@),
    {
        trimmed_text(stdout)
    }

    /// The rebase in progress, from the state directories that exist:
    /// `rebase-merge` (its files read into `merge`) or else `rebase-apply`.
    pub fn rebase_state(&self, merge: Option<RebaseFiles>, apply: Option<RebaseFiles>) -> (r: Option<RebaseState>)
        ensures
            match rebase_spec(merge, apply) {
                Some(v) => r matches Some(s) && s@ == v,
                None => r is None,
            },
    {
        match merge {
            Some(m) => Some(
                RebaseState {
                    kind: copy_str("merge"),
                    head_name: read_optional_text(&m.head_name),
                    onto: read_optional_text(&m.onto),
                    current: read_optional_text(&m.stopped_sha),
                    msgnum: read_optional_text(&m.msgnum),
                    end: read_optional_text(&m.end),
                },
            ),
            None => match apply {
                Some(a) => Some(
                    RebaseState {
                        kind: copy_str("apply"),
                        head_name: read_optional_text(&a.head_name),
                        onto: read_optional_text(&a.onto),
                        current: read_optional_text(&a.next),
                        msgnum: read_optional_text(&a.next),
                        end: read_optional_text(&a.last),
                    },
                ),
                None => None,
            },
        }
    }

    /// What pushing the current branch comes to: `Ok(None)` when there is
    /// nothing to push, the refusal when the upstream is ahead, else the
    /// destination refspec for `git push --porcelain <remote> <dst>`.
    pub fn push_current_branch(&self, upstream: &UpstreamBranch, behind: u32, upstream_ahead: u32) -> (r: Result<Option<String>, GitError>)
        ensures
            match push_spec(upstream@, behind, upstream_ahead) {
                Ok(None) => r matches Ok(None),
                Ok(Some(d)) => r matches Ok(Some(s)) && s@ == d,
                Err(m) => r matches Err(e) && e@ == m,
            },
    {
        if upstream_ahead > 0 {
            let mut msg = copy_str("refusing to push: ");
            push_str(&mut msg, upstream.display.as_str());
            push_str(&mut msg, " is ");
            let n = crate::text::decimal_string(upstream_ahead as u64);
            push_str(&mut msg, n.as_str());
            push_str(&mut msg, " commit(s) ahead of HEAD; update first");
            return Err(GitError::new(msg));
        }
        if behind == 0 {
            return Ok(None);
        }
        let mut dst = copy_str("HEAD:refs/heads/");
        push_str(&mut dst, upstream.branch.as_str());
        Ok(Some(dst))
    }

    /// Whether the fast-forward update merges after fetching: only when the
    /// upstream has commits that `HEAD` lacks.
    pub fn update_current_branch_ff_only(&self, behind: u32) -> (r: bool)
        ensures
            r == needs_merge(behind),
    {
        behind != 0
    }
    /// The Git command that pushes the current branch, or why there is none:
    /// `push --porcelain <remote> HEAD:refs/heads/<branch>`, never forced,
    /// and only when the upstream has nothing that `HEAD` lacks (`behind`
    /// and `upstream_ahead` are the counts of `count_revspecs`).
    pub fn push_command(&self, upstream: &UpstreamBranch, behind: u32, upstream_ahead: u32) -> (r: Result<Option<Vec<Vec<u8>>>, GitError>)
        ensures
            match push_spec(upstream@, behind, upstream_ahead) {
                Ok(None) => r matches Ok(None),
                Ok(Some(d)) => r matches Ok(Some(a)) && args_view(a@) == seq![
                    encode_utf8("push"@),
                    encode_utf8("--porcelain"@),
                    encode_utf8(upstream@.remote),
                    encode_utf8(d),
                ],
                Err(m) => r matches Err(e) && e@ == m,
            },
    {
        match self.push_current_branch(upstream, behind, upstream_ahead) {
            Err(e) => Err(e),
            Ok(None) => Ok(None),
            Ok(Some(dst)) => {
                let mut a: Vec<Vec<u8>> = Vec::new();
                a.push(text_bytes("push"));
                a.push(text_bytes("--porcelain"));
                a.push(text_bytes(upstream.remote.as_str()));
                a.push(text_bytes(dst.as_str()));
                proof {
                    assert(args_view(a@) =~= seq![
                        encode_utf8("push"@),
                        encode_utf8("--porcelain"@),
                        encode_utf8(upstream@.remote),
                        encode_utf8(dst@),
                    ]);
                }
                Ok(Some(a))
            },
        }
    }

    /// The Git commands of a fast-forward update: `fetch --porcelain --prune
    /// <remote>`, then, only when the upstream is `behind` commits ahead of
    /// `HEAD` (the second count of `count_revspecs`), `merge --ff-only @{u}`,
    /// which refuses rather than merge diverged histories.
    pub fn update_commands(&self, upstream: &UpstreamBranch, behind: u32) -> (r: (Vec<Vec<u8>>, Option<Vec<Vec<u8>>>))
        ensures
            args_view(r.0@) == seq![
                encode_utf8("fetch"@),
                encode_utf8("--porcelain"@),
                encode_utf8("--prune"@),
                encode_utf8(upstream@.remote),
            ],
            r.1 is None <==> !needs_merge(behind),
            r.1 matches Some(a) ==> args_view(a@) == seq![
                encode_utf8("merge"@),
                encode_utf8("--ff-only"@),
                encode_utf8("@{u}"@),
            ],
    {
        let mut fetch: Vec<Vec<u8>> = Vec::new();
        fetch.push(text_bytes("fetch"));
        fetch.push(text_bytes("--porcelain"));
        fetch.push(text_bytes("--prune"));
        fetch.push(text_bytes(upstream.remote.as_str()));
        assert(args_view(fetch@) =~= seq![
            encode_utf8("fetch"@),
            encode_utf8("--porcelain"@),
            encode_utf8("--prune"@),
            encode_utf8(upstream@.remote),
        ]);
        if self.update_current_branch_ff_only(behind) {
            let mut merge: Vec<Vec<u8>> = Vec::new();
            merge.push(text_bytes("merge"));
            merge.push(text_bytes("--ff-only"));
            merge.push(text_bytes("@{u}"));
            assert(args_view(merge@) =~= seq![encode_utf8("merge"@), encode_utf8("--ff-only"@), encode_utf8("@{u}"@)]);
            (fetch, Some(merge))
        } else {
            (fetch, None)
        }
    }
}

/// The revisions whose `git rev-list --count` gives the distances to the
/// upstream: first the commits of `HEAD` the upstream lacks, then the
/// commits of the upstream `HEAD` lacks.
pub fn count_revspecs() -> (r: (&'static str, &'static str))
    ensures
        r.0@ == "@{u}..HEAD"@,
        r.1@ == "HEAD..@{u}"@,
{
    ("@{u}..HEAD", "HEAD..@{u}")
}

} // verus!
