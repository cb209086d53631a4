//! Read models of the explorer panels (stashes, branches, log, worktrees,
//! submodules, conflicts) and the parsers of the Git output behind them.
use crate::text::{
    chars_eq, chars_of, chars_range, chars_starts_with, copy_str, find_char, find_in, join,
    join_spans, keep_nonempty, line_spans, lines, lossy_chars, lossy_text, nonempty_pieces,
    opt_index, parse_unsigned, parse_unsigned_range, push_chars, push_str, spans_describe, split,
    split_bytes, split_chars, starts_with, string_of, string_of_range, trim, trim_prefix_all, lex_lt, chars_lt,
    trim_prefix_all_range, trim_range, word_spans, words, find_elem, find_seq, bytes_eq, text_lines, text_bytes,
    lemma_split_around, lemma_split_single,
};
use vstd::prelude::*;
use vstd::utf8::encode_utf8;

verus! {

/// The unit separator that splits fields of formatted Git output.
pub open spec fn field_sep() -> char {
    '\u{1f}'
}

// ---------------------------------------------------------------------------
// Entries
// ---------------------------------------------------------------------------

#[derive(Debug, Clone, PartialEq, Eq)]
pub struct StashEntry {
    pub selector: String,
    pub short_hash: String,
    pub relative_time: String,
    pub subject: String,
}

pub struct StashEntryView {
    pub selector: Seq<char>,
    pub short_hash: Seq<char>,
    pub relative_time: Seq<char>,
    pub subject: Seq<char>,
}

impl View for StashEntry {
    type V = StashEntryView;

    open spec fn view(&self) -> StashEntryView {
        StashEntryView {
            selector: self.selector@,
            short_hash: self.short_hash@,
            relative_time: self.relative_time@,
            subject: self.subject@,
        }
    }
}

#[derive(Debug, Clone, PartialEq, Eq)]
pub struct BranchEntry {
    pub full_ref: String,
    pub name: String,
    pub short_oid: String,
    pub upstream: Option<String>,
    pub subject: String,
    pub current: bool,
    pub remote: bool,
}

pub struct BranchEntryView {
    pub full_ref: Seq<char>,
    pub name: Seq<char>,
    pub short_oid: Seq<char>,
    pub upstream: Option<Seq<char>>,
    pub subject: Seq<char>,
    pub current: bool,
    pub remote: bool,
}

pub open spec fn opt_text(o: Option<String>) -> Option<Seq<char>> {
    match o {
        Some(s) => Some(s@),
        None => None,
    }
}

impl View for BranchEntry {
    type V = BranchEntryView;

    open spec fn view(&self) -> BranchEntryView {
        BranchEntryView {
            full_ref: self.full_ref@,
            name: self.name@,
            short_oid: self.short_oid@,
            upstream: opt_text(self.upstream),
            subject: self.subject@,
            current: self.current,
            remote: self.remote,
        }
    }
}

#[derive(Debug, Clone, PartialEq, Eq)]
pub struct LogEntry {
    pub oid: String,
    pub short_oid: String,
    pub author: String,
    pub author_date: String,
    pub refs: Vec<String>,
    pub subject: String,
}

pub struct LogEntryView {
    pub oid: Seq<char>,
    pub short_oid: Seq<char>,
    pub author: Seq<char>,
    pub author_date: Seq<char>,
    pub refs: Seq<Seq<char>>,
    pub subject: Seq<char>,
}

pub open spec fn texts_view(v: Seq<String>) -> Seq<Seq<char>> {
    v.map_values(|s: String| s@)
}

impl View for LogEntry {
    type V = LogEntryView;

    open spec fn view(&self) -> LogEntryView {
        LogEntryView {
            oid: self.oid@,
            short_oid: self.short_oid@,
            author: self.author@,
            author_date: self.author_date@,
            refs: texts_view(self.refs@),
            subject: self.subject@,
        }
    }
}

#[derive(Debug, Clone, PartialEq, Eq)]
pub struct RemoteEntry {
    pub name: String,
    pub fetch_url: Option<String>,
    pub push_url: Option<String>,
}

#[derive(Debug, Clone, PartialEq, Eq)]
pub struct UpstreamBranch {
    pub remote: String,
    pub branch: String,
    pub display: String,
}

#[derive(Debug, Clone, PartialEq, Eq)]
pub struct WorktreeEntry {
    pub path: Vec<u8>,
    pub head: Option<String>,
    pub branch: Option<String>,
    pub detached: bool,
    pub bare: bool,
    pub locked: Option<String>,
    pub prunable: Option<String>,
    pub current: bool,
}

pub struct WorktreeEntryView {
    pub path: Seq<u8>,
    pub head: Option<Seq<char>>,
    pub branch: Option<Seq<char>>,
    pub detached: bool,
    pub bare: bool,
    pub locked: Option<Seq<char>>,
    pub prunable: Option<Seq<char>>,
    pub current: bool,
}

impl View for WorktreeEntry {
    type V = WorktreeEntryView;

    open spec fn view(&self) -> WorktreeEntryView {
        WorktreeEntryView {
            path: self.path@,
            head: opt_text(self.head),
            branch: opt_text(self.branch),
            detached: self.detached,
            bare: self.bare,
            locked: opt_text(self.locked),
            prunable: opt_text(self.prunable),
            current: self.current,
        }
    }
}

#[derive(Debug, Clone, PartialEq, Eq)]
pub struct SubmoduleEntry {
    pub name: String,
    pub path: Vec<u8>,
    pub url: Option<String>,
    pub recorded_oid: Option<String>,
    pub checked_out_oid: Option<String>,
    pub initialized: bool,
    pub dirty: bool,
}

#[derive(Debug, Clone, PartialEq, Eq)]
pub struct ConflictStage {
    pub mode: String,
    pub oid: String,
    pub stage: u8,
    pub path: Vec<u8>,
}

pub struct ConflictStageView {
    pub mode: Seq<char>,
    pub oid: Seq<char>,
    pub stage: u8,
    pub path: Seq<u8>,
}

impl View for ConflictStage {
    type V = ConflictStageView;

    open spec fn view(&self) -> ConflictStageView {
        ConflictStageView { mode: self.mode@, oid: self.oid@, stage: self.stage, path: self.path@ }
    }
}

#[derive(Debug, Clone, PartialEq, Eq)]
pub struct ConflictDetail {
    pub path: Vec<u8>,
    pub stages: Vec<ConflictStage>,
}

#[derive(Debug, Clone, PartialEq, Eq)]
pub struct RebaseState {
    pub kind: String,
    pub head_name: Option<String>,
    pub onto: Option<String>,
    pub current: Option<String>,
    pub msgnum: Option<String>,
    pub end: Option<String>,
}

// ---------------------------------------------------------------------------
// Small helpers
// ---------------------------------------------------------------------------

/// `None` for empty text.
pub open spec fn spec_non_empty(v: Seq<char>) -> Option<Seq<char>> {
    if v.len() == 0 {
        None
    } else {
        Some(v)
    }
}

pub fn non_empty(value: &str) -> (r: Option<String>)
    ensures
        opt_text(r) == spec_non_empty(value@),
{
    let v = chars_of(value);
    if v.len() == 0 {
        None
    } else {
        Some(string_of(&v))
    }
}

/// The first seven characters of an object id.
pub open spec fn spec_short_oid(v: Seq<char>) -> Seq<char> {
    if v.len() <= 7 {
        v
    } else {
        v.take(7)
    }
}

pub fn short_oid(value: &str) -> (r: String)
    ensures
        r@ == spec_short_oid(value@),
{
    let v = chars_of(value);
    let n = if v.len() <= 7 { v.len() } else { 7 };
    proof {
        if v.len() <= 7 {
            assert(v@.subrange(0, n as int) =~= v@);
        }
    }
    string_of_range(&v, 0, n)
}

/// `value` with the user-info part of its URL authority replaced by
/// `<redacted>`: everything between `://` and the first later `@`.
pub open spec fn spec_redact_url(v: Seq<char>) -> Seq<char> {
    match find_seq(v, "://"@) {
        None => v,
        Some(scheme_end) => {
            let auth_start = scheme_end + 3;
            match find_elem(v.skip(auth_start), '@') {
                None => v,
                Some(at) => v.take(auth_start) + "<redacted>"@ + v.skip(auth_start + at),
            }
        },
    }
}

pub fn redact_url(value: &str) -> (r: String)
    ensures
        r@ == spec_redact_url(value@),
{
    let v = chars_of(value);
    let sep = chars_of("://");
    proof {
        assert(v@.subrange(0, v@.len() as int) =~= v@);
    }
    let scheme_end = match find_in(&v, 0, v.len(), &sep) {
        None => {
            return string_of(&v);
        },
        Some(i) => i,
    };
    proof {
        reveal_strlit("://");
    }
    let auth_start = scheme_end + sep.len();
    let at = match find_char(&v, auth_start, v.len(), '@') {
        None => {
            proof {
                assert(v@.subrange(auth_start as int, v@.len() as int) =~= v@.skip(auth_start as int));
            }
            return string_of(&v);
        },
        Some(i) => i,
    };
    proof {
        assert(v@.subrange(auth_start as int, v@.len() as int) =~= v@.skip(auth_start as int));
    }
    let mut out = string_of_range(&v, 0, auth_start);
    push_str(&mut out, "<redacted>");
    let rest = chars_range(&v, auth_start + at, v.len());
    push_chars(&mut out, &rest);
    proof {
        assert(v@.subrange(0, auth_start as int) =~= v@.take(auth_start as int));
        assert(v@.subrange(auth_start + at, v@.len() as int) =~= v@.skip(auth_start + at));
    }
    out
}

// ---------------------------------------------------------------------------
// Stash list
// ---------------------------------------------------------------------------

/// A `git stash list --format=%gd%x1f%h%x1f%cr%x1f%gs` line.
pub open spec fn stash_entry(line: Seq<char>) -> Option<StashEntryView> {
    let parts = split(line, field_sep());
    if parts.len() < 4 {
        None
    } else {
        Some(
            StashEntryView {
                selector: parts[0],
                short_hash: parts[1],
                relative_time: parts[2],
                subject: join(parts.skip(3), " "@),
            },
        )
    }
}

pub open spec fn stash_entry_fn() -> spec_fn(Seq<char>) -> Option<StashEntryView> {
    |l: Seq<char>| stash_entry(l)
}

/// Entries of a stash listing: one per well-formed line.
pub open spec fn stash_list_spec(bytes: Seq<u8>) -> Seq<StashEntryView> {
    lines(lossy_chars(bytes)).filter_map(stash_entry_fn())
}

pub open spec fn stash_views(v: Seq<StashEntry>) -> Seq<StashEntryView> {
    v.map_values(|e: StashEntry| e@)
}

fn stash_line(line: &[char]) -> (r: Option<StashEntry>)
    ensures
        match stash_entry(line@) {
            Some(v) => r matches Some(e) && e@ == v,
            None => r is None,
        },
{
    let parts = split_chars(line, '\u{1f}');
    if parts.len() < 4 {
        return None;
    }
    let ghost ps = split(line@, '\u{1f}');
    let sp = chars_of(" ");
    Some(
        StashEntry {
            selector: string_of_range(line, parts[0].0, parts[0].1),
            short_hash: string_of_range(line, parts[1].0, parts[1].1),
            relative_time: string_of_range(line, parts[2].0, parts[2].1),
            subject: join_spans(line, &parts, 3, &sp, Ghost(ps)),
        },
    )
}

pub fn parse_stash_list(bytes: &[u8]) -> (r: Vec<StashEntry>)
    ensures
        stash_views(r@) == stash_list_spec(bytes@),
{
    let (text, spans) = text_lines(bytes);
    let ghost ls = lines(lossy_chars(bytes@));
    let mut out: Vec<StashEntry> = Vec::new();
    let mut i: usize = 0;
    while i < spans.len()
        invariant
            i <= spans.len(),
            spans_describe(text@, spans@, ls),
            stash_views(out@) == ls.take(i as int).filter_map(stash_entry_fn()),
        decreases spans.len() - i,
    {
        let (a, b) = spans[i];
        let line = chars_range(&text, a, b);
        let e = stash_line(&line);
        proof {
            ls.lemma_filter_map_take_succ(stash_entry_fn(), i as int);
        }
        match e {
            Some(entry) => {
                out.push(entry);
                proof {
                    assert(stash_views(out@) =~= stash_views(out@.drop_last()).push(out@.last()@));
                    assert(out@.drop_last() == out@.take(out@.len() - 1));
                }
            },
            None => {},
        }
        proof {
            assert(stash_views(out@) =~= ls.take(i + 1).filter_map(stash_entry_fn()));
        }
        i += 1;
    }
    assert(ls.take(spans.len() as int) =~= ls);
    out
}


// ---------------------------------------------------------------------------
// Branch list
// ---------------------------------------------------------------------------

/// A `git for-each-ref` line with the fields HEAD marker, ref name, short
/// name, object, upstream and subject.
pub open spec fn branch_entry(line: Seq<char>) -> Option<BranchEntryView> {
    let parts = split(line, field_sep());
    if parts.len() < 6 {
        None
    } else {
        Some(
            BranchEntryView {
                full_ref: parts[1],
                name: parts[2],
                short_oid: parts[3],
                upstream: spec_non_empty(parts[4]),
                subject: join(parts.skip(5), " "@),
                current: parts[0] == "*"@,
                remote: starts_with(parts[1], "refs/remotes/"@),
            },
        )
    }
}

pub open spec fn branch_entry_fn() -> spec_fn(Seq<char>) -> Option<BranchEntryView> {
    |l: Seq<char>| branch_entry(l)
}

pub open spec fn branch_list_spec(bytes: Seq<u8>) -> Seq<BranchEntryView> {
    lines(lossy_chars(bytes)).filter_map(branch_entry_fn())
}

pub open spec fn branch_views(v: Seq<BranchEntry>) -> Seq<BranchEntryView> {
    v.map_values(|e: BranchEntry| e@)
}

fn range_non_empty(line: &[char], a: usize, b: usize) -> (r: Option<String>)
    requires
        a <= b <= line.len(),
    ensures
        opt_text(r) == spec_non_empty(line@.subrange(a as int, b as int)),
{
    if a == b {
        None
    } else {
        Some(string_of_range(line, a, b))
    }
}

fn branch_line(line: &[char]) -> (r: Option<BranchEntry>)
    ensures
        match branch_entry(line@) {
            Some(v) => r matches Some(e) && e@ == v,
            None => r is None,
        },
{
    let parts = split_chars(line, '\u{1f}');
    if parts.len() < 6 {
        return None;
    }
    let ghost ps = split(line@, '\u{1f}');
    let sp = chars_of(" ");
    let star = chars_of("*");
    let remotes = chars_of("refs/remotes/");
    let head = chars_range(line, parts[0].0, parts[0].1);
    let current = chars_eq(&head, &star);
    let remote = chars_starts_with(line, parts[1].0, parts[1].1, &remotes);
    Some(
        BranchEntry {
            full_ref: string_of_range(line, parts[1].0, parts[1].1),
            name: string_of_range(line, parts[2].0, parts[2].1),
            short_oid: string_of_range(line, parts[3].0, parts[3].1),
            upstream: range_non_empty(line, parts[4].0, parts[4].1),
            subject: join_spans(line, &parts, 5, &sp, Ghost(ps)),
            current,
            remote,
        },
    )
}

pub fn parse_branch_list(bytes: &[u8]) -> (r: Vec<BranchEntry>)
    ensures
        branch_views(r@) == branch_list_spec(bytes@),
{
    let (text, spans) = text_lines(bytes);
    let ghost ls = lines(lossy_chars(bytes@));
    let mut out: Vec<BranchEntry> = Vec::new();
    let mut i: usize = 0;
    while i < spans.len()
        invariant
            i <= spans.len(),
            spans_describe(text@, spans@, ls),
            branch_views(out@) == ls.take(i as int).filter_map(branch_entry_fn()),
        decreases spans.len() - i,
    {
        let (a, b) = spans[i];
        let line = chars_range(&text, a, b);
        let e = branch_line(&line);
        proof {
            ls.lemma_filter_map_take_succ(branch_entry_fn(), i as int);
        }
        match e {
            Some(entry) => {
                out.push(entry);
                proof {
                    assert(branch_views(out@) =~= branch_views(out@.drop_last()).push(out@.last()@));
                    assert(out@.drop_last() == out@.take(out@.len() - 1));
                }
            },
            None => {},
        }
        proof {
            assert(branch_views(out@) =~= ls.take(i + 1).filter_map(branch_entry_fn()));
        }
        i += 1;
    }
    assert(ls.take(spans.len() as int) =~= ls);
    out
}

// ---------------------------------------------------------------------------
// Log
// ---------------------------------------------------------------------------

/// The decorations of a log line: comma-separated, trimmed, empty ones
/// dropped.
pub open spec fn ref_names(field: Seq<char>) -> Seq<Seq<char>> {
    nonempty_pieces(split(field, ',').map_values(|p: Seq<char>| trim(p)))
}

/// A `git log --format=%H%x1f%h%x1f%an%x1f%ad%x1f%D%x1f%s` line.
pub open spec fn log_entry(line: Seq<char>) -> Option<LogEntryView> {
    let parts = split(line, field_sep());
    if parts.len() < 6 {
        None
    } else {
        Some(
            LogEntryView {
                oid: parts[0],
                short_oid: parts[1],
                author: parts[2],
                author_date: parts[3],
                refs: ref_names(parts[4]),
                subject: join(parts.skip(5), " "@),
            },
        )
    }
}

/// A log line of six fields in the order of its format
/// (`%H`, `%h`, `%an`, `%ad`, `%D`, `%s`) gives an entry whose object id,
/// short id, author, author date and subject are those fields.
pub proof fn lemma_log_fields(
    oid: Seq<char>,
    short: Seq<char>,
    author: Seq<char>,
    date: Seq<char>,
    refs: Seq<char>,
    subject: Seq<char>,
)
    requires
        !oid.contains(field_sep()),
        !short.contains(field_sep()),
        !author.contains(field_sep()),
        !date.contains(field_sep()),
        !refs.contains(field_sep()),
        !subject.contains(field_sep()),
    ensures
        ({
            let sep = seq![field_sep()];
            let line = oid + sep + short + sep + author + sep + date + sep + refs + sep + subject;
            log_entry(line) matches Some(e) && e.oid == oid && e.short_oid == short && e.author == author
                && e.author_date == date && e.subject == subject
        }),
{
    let c = field_sep();
    let sep = seq![c];
    lemma_split_single(oid, c);
    lemma_split_single(short, c);
    lemma_split_single(author, c);
    lemma_split_single(date, c);
    lemma_split_single(refs, c);
    lemma_split_single(subject, c);
    let t5 = subject;
    let t4 = refs + sep + t5;
    let t3 = date + sep + t4;
    let t2 = author + sep + t3;
    let t1 = short + sep + t2;
    let t0 = oid + sep + t1;
    lemma_split_around(refs, t5, c);
    lemma_split_around(date, t4, c);
    lemma_split_around(author, t3, c);
    lemma_split_around(short, t2, c);
    lemma_split_around(oid, t1, c);
    let line = oid + sep + short + sep + author + sep + date + sep + refs + sep + subject;
    assert(line =~= t0);
    let parts = split(line, c);
    assert(parts =~= seq![oid, short, author, date, refs, subject]);
    assert(parts.skip(5) =~= seq![subject]);
}

pub open spec fn log_entry_fn() -> spec_fn(Seq<char>) -> Option<LogEntryView> {
    |l: Seq<char>| log_entry(l)
}

pub open spec fn log_list_spec(bytes: Seq<u8>) -> Seq<LogEntryView> {
    lines(lossy_chars(bytes)).filter_map(log_entry_fn())
}

pub open spec fn log_views(v: Seq<LogEntry>) -> Seq<LogEntryView> {
    v.map_values(|e: LogEntry| e@)
}

fn refs_of(field: &[char]) -> (r: Vec<String>)
    ensures
        texts_view(r@) == ref_names(field@),
{
    let pieces = split_chars(field, ',');
    let ghost ps = split(field@, ',');
    let ghost trimmed = ps.map_values(|p: Seq<char>| trim(p));
    let mut out: Vec<String> = Vec::new();
    let mut k: usize = 0;
    proof {
        reveal(Seq::filter);
        assert(trimmed.take(0) =~= Seq::<Seq<char>>::empty());
    }
    while k < pieces.len()
        invariant
            k <= pieces.len(),
            spans_describe(field@, pieces@, ps),
            trimmed == ps.map_values(|p: Seq<char>| trim(p)),
            texts_view(out@) == nonempty_pieces(trimmed.take(k as int)),
        decreases pieces.len() - k,
    {
        let (a, b) = pieces[k];
        let (x, y) = trim_range(field, a, b);
        proof {
            reveal(Seq::filter);
            assert(trimmed.take(k + 1).drop_last() =~= trimmed.take(k as int));
            assert(trimmed.take(k + 1).last() == trim(ps[k as int]));
        }
        if x < y {
            out.push(string_of_range(field, x, y));
            proof {
                assert(texts_view(out@) =~= texts_view(out@.drop_last()).push(out@.last()@));
                assert(out@.drop_last() == out@.take(out@.len() - 1));
            }
        }
        k += 1;
    }
    assert(trimmed.take(pieces.len() as int) =~= trimmed);
    out
}

fn log_line(line: &[char]) -> (r: Option<LogEntry>)
    ensures
        match log_entry(line@) {
            Some(v) => r matches Some(e) && e@ == v,
            None => r is None,
        },
{
    let parts = split_chars(line, '\u{1f}');
    if parts.len() < 6 {
        return None;
    }
    let ghost ps = split(line@, '\u{1f}');
    let sp = chars_of(" ");
    let decorations = chars_range(line, parts[4].0, parts[4].1);
    Some(
        LogEntry {
            oid: string_of_range(line, parts[0].0, parts[0].1),
            short_oid: string_of_range(line, parts[1].0, parts[1].1),
            author: string_of_range(line, parts[2].0, parts[2].1),
            author_date: string_of_range(line, parts[3].0, parts[3].1),
            refs: refs_of(&decorations),
            subject: join_spans(line, &parts, 5, &sp, Ghost(ps)),
        },
    )
}

pub fn parse_log_list(bytes: &[u8]) -> (r: Vec<LogEntry>)
    ensures
        log_views(r@) == log_list_spec(bytes@),
{
    let (text, spans) = text_lines(bytes);
    let ghost ls = lines(lossy_chars(bytes@));
    let mut out: Vec<LogEntry> = Vec::new();
    let mut i: usize = 0;
    while i < spans.len()
        invariant
            i <= spans.len(),
            spans_describe(text@, spans@, ls),
            log_views(out@) == ls.take(i as int).filter_map(log_entry_fn()),
        decreases spans.len() - i,
    {
        let (a, b) = spans[i];
        let line = chars_range(&text, a, b);
        let e = log_line(&line);
        proof {
            ls.lemma_filter_map_take_succ(log_entry_fn(), i as int);
        }
        match e {
            Some(entry) => {
                out.push(entry);
                proof {
                    assert(log_views(out@) =~= log_views(out@.drop_last()).push(out@.last()@));
                    assert(out@.drop_last() == out@.take(out@.len() - 1));
                }
            },
            None => {},
        }
        proof {
            assert(log_views(out@) =~= ls.take(i + 1).filter_map(log_entry_fn()));
        }
        i += 1;
    }
    assert(ls.take(spans.len() as int) =~= ls);
    out
}

// ---------------------------------------------------------------------------
// Conflict stages
// ---------------------------------------------------------------------------

/// A `git ls-files -u -z` record: `mode oid stage<TAB>path`.
pub open spec fn conflict_stage(record: Seq<u8>) -> Option<ConflictStageView> {
    let text = lossy_chars(record);
    match find_elem(text, '\t') {
        None => None,
        Some(tab) => {
            let ws = words(text.take(tab));
            if ws.len() < 3 {
                None
            } else {
                match parse_unsigned(ws[2], 255) {
                    None => None,
                    Some(stage) => Some(
                        ConflictStageView {
                            mode: ws[0],
                            oid: ws[1],
                            stage: stage as u8,
                            path: encode_utf8(text.skip(tab + 1)),
                        },
                    ),
                }
            }
        },
    }
}

pub open spec fn conflict_stage_fn() -> spec_fn(Seq<u8>) -> Option<ConflictStageView> {
    |r: Seq<u8>| conflict_stage(r)
}

pub open spec fn conflict_stages_spec(bytes: Seq<u8>) -> Seq<ConflictStageView> {
    nonempty_pieces(split(bytes, 0u8)).filter_map(conflict_stage_fn())
}

pub open spec fn stage_views(v: Seq<ConflictStage>) -> Seq<ConflictStageView> {
    v.map_values(|e: ConflictStage| e@)
}

/// The UTF-8 bytes of a string (a path given as text).
fn conflict_record(record: &[u8]) -> (r: Option<ConflictStage>)
    ensures
        match conflict_stage(record@) {
            Some(v) => r matches Some(e) && e@ == v,
            None => r is None,
        },
{
    let text_s = lossy_text(record);
    let text = chars_of(text_s.as_str());
    proof {
        assert(text@.subrange(0, text@.len() as int) =~= text@);
    }
    let tab = match find_char(&text, 0, text.len(), '\t') {
        None => {
            return None;
        },
        Some(t) => t,
    };
    let ws = word_spans(&text, 0, tab);
    proof {
        assert(text@.subrange(0, tab as int) =~= text@.take(tab as int));
    }
    if ws.len() < 3 {
        return None;
    }
    let stage = match parse_unsigned_range(&text, ws[2].0, ws[2].1, 255) {
        None => {
            return None;
        },
        Some(v) => v,
    };
    let path_s = string_of_range(&text, tab + 1, text.len());
    proof {
        assert(text@.subrange(tab + 1, text@.len() as int) =~= text@.skip(tab + 1));
    }
    Some(
        ConflictStage {
            mode: string_of_range(&text, ws[0].0, ws[0].1),
            oid: string_of_range(&text, ws[1].0, ws[1].1),
            stage: stage as u8,
            path: text_bytes(path_s.as_str()),
        },
    )
}

pub fn parse_conflict_stages(bytes: &[u8]) -> (r: Vec<ConflictStage>)
    ensures
        stage_views(r@) == conflict_stages_spec(bytes@),
{
    let pieces = split_bytes(bytes, 0u8);
    let records = keep_nonempty(bytes, &pieces, Ghost(split(bytes@, 0u8)));
    let ghost rs = nonempty_pieces(split(bytes@, 0u8));
    let mut out: Vec<ConflictStage> = Vec::new();
    let mut i: usize = 0;
    while i < records.len()
        invariant
            i <= records.len(),
            spans_describe(bytes@, records@, rs),
            stage_views(out@) == rs.take(i as int).filter_map(conflict_stage_fn()),
        decreases records.len() - i,
    {
        let (a, b) = records[i];
        let e = conflict_record(&bytes[a..b]);
        proof {
            rs.lemma_filter_map_take_succ(conflict_stage_fn(), i as int);
        }
        match e {
            Some(entry) => {
                out.push(entry);
                proof {
                    assert(stage_views(out@) =~= stage_views(out@.drop_last()).push(out@.last()@));
                    assert(out@.drop_last() == out@.take(out@.len() - 1));
                }
            },
            None => {},
        }
        proof {
            assert(stage_views(out@) =~= rs.take(i + 1).filter_map(conflict_stage_fn()));
        }
        i += 1;
    }
    assert(rs.take(records.len() as int) =~= rs);
    out
}


// ---------------------------------------------------------------------------
// Worktrees
// ---------------------------------------------------------------------------

/// The records of NUL- or newline-separated output, as text.
pub open spec fn records_text(bytes: Seq<u8>) -> Seq<Seq<char>> {
    if bytes.contains(0u8) {
        split(bytes, 0u8).map_values(|p: Seq<u8>| lossy_chars(p))
    } else {
        lines(lossy_chars(bytes))
    }
}

pub open spec fn chars_views(v: Seq<Vec<char>>) -> Seq<Seq<char>> {
    v.map_values(|x: Vec<char>| x@)
}

fn contains_nul(bytes: &[u8]) -> (r: bool)
    ensures
        r == bytes@.contains(0u8),
{
    let mut i: usize = 0;
    while i < bytes.len()
        invariant
            i <= bytes.len(),
            forall|j: int| 0 <= j < i ==> bytes@[j] != 0u8,
        decreases bytes.len() - i,
    {
        if bytes[i] == 0u8 {
            return true;
        }
        i += 1;
    }
    false
}

/// Records of NUL- or newline-separated output.
fn record_texts(bytes: &[u8]) -> (r: Vec<Vec<char>>)
    ensures
        chars_views(r@) == records_text(bytes@),
{
    let mut out: Vec<Vec<char>> = Vec::new();
    if contains_nul(bytes) {
        let spans = split_bytes(bytes, 0u8);
        let ghost ps = split(bytes@, 0u8);
        let mut i: usize = 0;
        while i < spans.len()
            invariant
                i <= spans.len(),
                spans_describe(bytes@, spans@, ps),
                chars_views(out@) == ps.take(i as int).map_values(|p: Seq<u8>| lossy_chars(p)),
            decreases spans.len() - i,
        {
            let (a, b) = spans[i];
            let t = lossy_text(&bytes[a..b]);
            let ghost old_out = out@;
            out.push(chars_of(t.as_str()));
            proof {
                assert(out@.drop_last() =~= old_out);
                assert(chars_views(out@) =~= chars_views(out@.drop_last()).push(out@.last()@));
                assert(chars_views(out@) =~= ps.take(i + 1).map_values(|p: Seq<u8>| lossy_chars(p)));
            }
            i += 1;
        }
        assert(ps.take(spans.len() as int) =~= ps);
    } else {
        let (text, spans) = text_lines(bytes);
        let ghost ls = lines(lossy_chars(bytes@));
        let mut i: usize = 0;
        while i < spans.len()
            invariant
                i <= spans.len(),
                spans_describe(text@, spans@, ls),
                chars_views(out@) == ls.take(i as int),
            decreases spans.len() - i,
        {
            let (a, b) = spans[i];
            let ghost old_out = out@;
            out.push(chars_range(&text, a, b));
            proof {
                assert(out@.drop_last() =~= old_out);
                assert(chars_views(out@) =~= chars_views(out@.drop_last()).push(out@.last()@));
                assert(chars_views(out@) =~= ls.take(i + 1));
            }
            i += 1;
        }
        assert(ls.take(spans.len() as int) =~= ls);
    }
    out
}

/// Whether two paths name the same place: their canonical forms when both
/// could be resolved, else the paths as given.
pub open spec fn same_path_spec(a: Seq<u8>, b: Seq<u8>, canonical_a: Option<Seq<u8>>, canonical_b: Option<Seq<u8>>) -> bool {
    match (canonical_a, canonical_b) {
        (Some(x), Some(y)) => x == y,
        _ => a == b,
    }
}

/// Whether paths `a` and `b` name the same place, given what resolving each
/// of them to a canonical path gave (`None` where that failed).
pub fn same_path(a: &[u8], b: &[u8], canonical_a: Option<&[u8]>, canonical_b: Option<&[u8]>) -> (r: bool)
    ensures
        r == same_path_spec(
            a@,
            b@,
            match canonical_a {
                Some(x) => Some(x@),
                None => None,
            },
            match canonical_b {
                Some(y) => Some(y@),
                None => None,
            },
        ),
{
    match (canonical_a, canonical_b) {
        (Some(x), Some(y)) => bytes_eq(x, y),
        _ => bytes_eq(a, b),
    }
}

/// A worktree entry just opened by a `worktree <path>` line.
pub open spec fn new_worktree(path: Seq<char>, current_root: Seq<u8>) -> WorktreeEntryView {
    WorktreeEntryView {
        path: encode_utf8(path),
        head: None,
        branch: None,
        detached: false,
        bare: false,
        locked: None,
        prunable: None,
        current: encode_utf8(path) == current_root,
    }
}

/// Effect of an attribute line on the open entry.
pub open spec fn worktree_update(e: WorktreeEntryView, line: Seq<char>) -> WorktreeEntryView {
    if starts_with(line, "HEAD "@) {
        WorktreeEntryView { head: Some(spec_short_oid(line.skip(5))), ..e }
    } else if starts_with(line, "branch "@) {
        WorktreeEntryView { branch: Some(trim_prefix_all(line.skip(7), "refs/heads/"@)), ..e }
    } else if line == "detached"@ {
        WorktreeEntryView { detached: true, ..e }
    } else if line == "bare"@ {
        WorktreeEntryView { bare: true, ..e }
    } else if starts_with(line, "locked"@) {
        WorktreeEntryView { locked: Some(trim(line.skip(6))), ..e }
    } else if starts_with(line, "prunable"@) {
        WorktreeEntryView { prunable: Some(trim(line.skip(8))), ..e }
    } else {
        e
    }
}

pub struct WorktreeScan {
    pub entries: Seq<WorktreeEntryView>,
    pub open: Option<WorktreeEntryView>,
}

/// The scan after one more line: empty lines are skipped, a `worktree` line
/// closes the open entry and opens a new one, and other lines update the
/// open entry (lines before the first entry are ignored).
pub open spec fn worktree_step(st: WorktreeScan, line: Seq<char>, root: Seq<u8>) -> WorktreeScan {
    if line.len() == 0 {
        st
    } else if starts_with(line, "worktree "@) {
        WorktreeScan {
            entries: match st.open {
                Some(e) => st.entries.push(e),
                None => st.entries,
            },
            open: Some(new_worktree(line.skip(9), root)),
        }
    } else {
        match st.open {
            None => st,
            Some(e) => WorktreeScan { open: Some(worktree_update(e, line)), ..st },
        }
    }
}

pub open spec fn worktree_scan(fs: Seq<Seq<char>>, root: Seq<u8>) -> WorktreeScan
    decreases fs.len(),
{
    if fs.len() == 0 {
        WorktreeScan { entries: Seq::empty(), open: None }
    } else {
        worktree_step(worktree_scan(fs.drop_last(), root), fs.last(), root)
    }
}

/// The entries of `git worktree list --porcelain` output; an entry is
/// current when its path is byte-for-byte `current_root`.
pub open spec fn worktree_list_spec(bytes: Seq<u8>, current_root: Seq<u8>) -> Seq<WorktreeEntryView> {
    let st = worktree_scan(records_text(bytes), current_root);
    match st.open {
        Some(e) => st.entries.push(e),
        None => st.entries,
    }
}

pub open spec fn worktree_views(v: Seq<WorktreeEntry>) -> Seq<WorktreeEntryView> {
    v.map_values(|e: WorktreeEntry| e@)
}

/// Markers of the worktree porcelain format.
struct WorktreeMarks {
    worktree: Vec<char>,
    head: Vec<char>,
    branch: Vec<char>,
    heads: Vec<char>,
    detached: Vec<char>,
    bare: Vec<char>,
    locked: Vec<char>,
    prunable: Vec<char>,
}

impl WorktreeMarks {
    spec fn wf(&self) -> bool {
        &&& self.worktree@ == "worktree "@
        &&& self.head@ == "HEAD "@
        &&& self.branch@ == "branch "@
        &&& self.heads@ == "refs/heads/"@
        &&& self.detached@ == "detached"@
        &&& self.bare@ == "bare"@
        &&& self.locked@ == "locked"@
        &&& self.prunable@ == "prunable"@
    }

    fn new() -> (m: WorktreeMarks)
        ensures
            m.wf(),
    {
        WorktreeMarks {
            worktree: chars_of("worktree "),
            head: chars_of("HEAD "),
            branch: chars_of("branch "),
            heads: chars_of("refs/heads/"),
            detached: chars_of("detached"),
            bare: chars_of("bare"),
            locked: chars_of("locked"),
            prunable: chars_of("prunable"),
        }
    }
}

fn worktree_apply(e: &mut WorktreeEntry, line: &[char], m: &WorktreeMarks)
    requires
        m.wf(),
    ensures
        final(e)@ == worktree_update(old(e)@, line@),
{
    let n = line.len();
    proof {
        assert(line@.subrange(0, n as int) =~= line@);
        reveal_strlit("HEAD ");
        reveal_strlit("branch ");
        reveal_strlit("locked");
        reveal_strlit("prunable");
    }
    if chars_starts_with(line, 0, n, &m.head) {
        let rest = string_of_range(line, 5, n);
        proof {
            assert(line@.subrange(5, n as int) =~= line@.skip(5));
        }
        e.head = Some(short_oid(rest.as_str()));
    } else if chars_starts_with(line, 0, n, &m.branch) {
        let a = trim_prefix_all_range(line, 7, n, &m.heads);
        proof {
            assert(line@.subrange(7, n as int) =~= line@.skip(7));
        }
        e.branch = Some(string_of_range(line, a, n));
    } else if chars_eq(line, &m.detached) {
        e.detached = true;
    } else if chars_eq(line, &m.bare) {
        e.bare = true;
    } else if chars_starts_with(line, 0, n, &m.locked) {
        let (a, b) = trim_range(line, 6, n);
        proof {
            assert(line@.subrange(6, n as int) =~= line@.skip(6));
        }
        e.locked = Some(string_of_range(line, a, b));
    } else if chars_starts_with(line, 0, n, &m.prunable) {
        let (a, b) = trim_range(line, 8, n);
        proof {
            assert(line@.subrange(8, n as int) =~= line@.skip(8));
        }
        e.prunable = Some(string_of_range(line, a, b));
    }
}

/// Parses `git worktree list --porcelain [-z]` output.
pub fn parse_worktree_list(bytes: &[u8], current_root: &[u8]) -> (r: Vec<WorktreeEntry>)
    ensures
        worktree_views(r@) == worktree_list_spec(bytes@, current_root@),
{
    let fs = record_texts(bytes);
    let ghost fsv = records_text(bytes@);
    let m = WorktreeMarks::new();
    let mut entries: Vec<WorktreeEntry> = Vec::new();
    let mut open: Option<WorktreeEntry> = None;
    let mut i: usize = 0;
    while i < fs.len()
        invariant
            i <= fs.len(),
            m.wf(),
            chars_views(fs@) == fsv,
            worktree_views(entries@) == worktree_scan(fsv.take(i as int), current_root@).entries,
            (match open {
                Some(e) => worktree_scan(fsv.take(i as int), current_root@).open == Some(e@),
                None => worktree_scan(fsv.take(i as int), current_root@).open is None,
            }),
        decreases fs.len() - i,
    {
        let line = &fs[i];
        proof {
            assert(fsv.take(i + 1).drop_last() =~= fsv.take(i as int));
            assert(fsv.take(i + 1).last() == line@);
            reveal_strlit("worktree ");
        }
        let n = line.len();
        proof {
            assert(line@.subrange(0, n as int) =~= line@);
        }
        if n == 0 {
        } else if chars_starts_with(line, 0, n, &m.worktree) {
            match open.take() {
                Some(e) => {
                    entries.push(e);
                    proof {
                        assert(worktree_views(entries@) =~= worktree_views(entries@.drop_last()).push(
                            entries@.last()@,
                        ));
                        assert(entries@.drop_last() == entries@.take(entries@.len() - 1));
                    }
                },
                None => {},
            }
            let path_s = string_of_range(line, 9, n);
            let path = text_bytes(path_s.as_str());
            let current = bytes_eq(&path, current_root);
            proof {
                assert(line@.subrange(9, n as int) =~= line@.skip(9));
            }
            open = Some(
                WorktreeEntry {
                    path,
                    head: None,
                    branch: None,
                    detached: false,
                    bare: false,
                    locked: None,
                    prunable: None,
                    current,
                },
            );
        } else {
            match open {
                Some(ref mut e) => {
                    worktree_apply(e, line, &m);
                },
                None => {},
            }
        }
        i += 1;
    }
    proof {
        assert(fsv.take(fs.len() as int) =~= fsv);
    }
    match open {
        Some(e) => {
            entries.push(e);
            proof {
                assert(worktree_views(entries@) =~= worktree_views(entries@.drop_last()).push(entries@.last()@));
                assert(entries@.drop_last() == entries@.take(entries@.len() - 1));
            }
        },
        None => {},
    }
    entries
}


// ---------------------------------------------------------------------------
// Submodules
// ---------------------------------------------------------------------------

pub struct SubmoduleEntryView {
    pub name: Seq<char>,
    pub path: Seq<u8>,
    pub url: Option<Seq<char>>,
    pub recorded_oid: Option<Seq<char>>,
    pub checked_out_oid: Option<Seq<char>>,
    pub initialized: bool,
    pub dirty: bool,
}

impl View for SubmoduleEntry {
    type V = SubmoduleEntryView;

    open spec fn view(&self) -> SubmoduleEntryView {
        SubmoduleEntryView {
            name: self.name@,
            path: self.path@,
            url: opt_text(self.url),
            recorded_oid: opt_text(self.recorded_oid),
            checked_out_oid: opt_text(self.checked_out_oid),
            initialized: self.initialized,
            dirty: self.dirty,
        }
    }
}

/// Position of the last `x` in `s`, if any.
pub open spec fn rfind_elem(s: Seq<char>, x: char) -> Option<int> {
    if s.contains(x) {
        Some(choose|i: int| 0 <= i < s.len() && s[i] == x && forall|j: int| i < j < s.len() ==> s[j] != x)
    } else {
        None
    }
}

/// Key and value of a config record: split at the first newline (the `-z`
/// form), otherwise at the first space.
pub open spec fn config_key_value(line: Seq<char>) -> Option<(Seq<char>, Seq<char>)> {
    match find_elem(line, '\n') {
        Some(i) => Some((line.take(i), line.skip(i + 1))),
        None => match find_elem(line, ' ') {
            Some(i) => Some((line.take(i), line.skip(i + 1))),
            None => None,
        },
    }
}

/// Name and field of a `submodule.<name>.<field>` key (the name may itself
/// contain dots; the field is after the last one).
pub open spec fn submodule_key(key: Seq<char>) -> Option<(Seq<char>, Seq<char>)> {
    if starts_with(key, "submodule."@) {
        let rest = key.skip(10);
        match rfind_elem(rest, '.') {
            Some(j) => Some((rest.take(j), rest.skip(j + 1))),
            None => None,
        }
    } else {
        None
    }
}

/// Path and URL recorded per submodule name by the records (later records
/// win; a URL is stored redacted).
pub open spec fn submodule_map(recs: Seq<Seq<char>>) -> Map<Seq<char>, (Option<Seq<u8>>, Option<Seq<char>>)>
    decreases recs.len(),
{
    if recs.len() == 0 {
        Map::empty()
    } else {
        submodule_step(submodule_map(recs.drop_last()), recs.last())
    }
}

/// Effect of one config record on the recorded paths and URLs.
pub open spec fn submodule_step(
    m: Map<Seq<char>, (Option<Seq<u8>>, Option<Seq<char>>)>,
    line: Seq<char>,
) -> Map<Seq<char>, (Option<Seq<u8>>, Option<Seq<char>>)> {
    match config_key_value(line) {
        None => m,
        Some((k, v)) => match submodule_key(k) {
            None => m,
            Some((name, field)) => {
                let prev = if m.contains_key(name) {
                    m[name]
                } else {
                    (None, None)
                };
                let next = if field == "path"@ {
                    (Some(encode_utf8(v)), prev.1)
                } else if field == "url"@ {
                    (prev.0, Some(spec_redact_url(v)))
                } else {
                    prev
                };
                m.insert(name, next)
            },
        },
    }
}

/// The submodules listed by `.gitmodules` config output: every name that
/// has a path, in ascending name order, with its path and URL.
pub open spec fn submodule_list_matches(bytes: Seq<u8>, out: Seq<SubmoduleEntryView>) -> bool {
    let m = submodule_map(records_text(bytes));
    &&& forall|i: int, j: int| 0 <= i < j < out.len() ==> lex_lt(out[i].name, out[j].name)
    &&& forall|k: int|
        0 <= k < out.len() ==> {
            &&& m.contains_key((#[trigger] out[k]).name)
            &&& m[out[k].name].0 == Some(out[k].path)
            &&& m[out[k].name].1 == out[k].url
            &&& out[k].recorded_oid is None
            &&& out[k].checked_out_oid is None
            &&& !out[k].initialized
            &&& !out[k].dirty
        }
    &&& forall|n: Seq<char>|
        #[trigger] m.contains_key(n) && m[n].0 is Some ==> exists|k: int| 0 <= k < out.len() && out[k].name == n
}

pub open spec fn submodule_views(v: Seq<SubmoduleEntry>) -> Seq<SubmoduleEntryView> {
    v.map_values(|e: SubmoduleEntry| e@)
}

struct Partial {
    name: Vec<char>,
    path: Option<Vec<u8>>,
    url: Option<String>,
}

spec fn partial_fields(p: Partial) -> (Option<Seq<u8>>, Option<Seq<char>>) {
    (crate::git::opt_bytes_view(p.path), opt_text(p.url))
}

spec fn partials_sorted(ps: Seq<Partial>) -> bool {
    forall|i: int, j: int| 0 <= i < j < ps.len() ==> lex_lt(ps[i].name@, ps[j].name@)
}

spec fn partials_match(ps: Seq<Partial>, m: Map<Seq<char>, (Option<Seq<u8>>, Option<Seq<char>>)>) -> bool {
    &&& forall|k: int|
        0 <= k < ps.len() ==> m.contains_key((#[trigger] ps[k]).name@) && m[ps[k].name@] == partial_fields(ps[k])
    &&& forall|n: Seq<char>| #[trigger] m.contains_key(n) ==> exists|k: int| 0 <= k < ps.len() && ps[k].name@ == n
}

/// Splits a record into key and value.
fn key_value(line: &[char]) -> (r: Option<(usize, usize)>)
    ensures
        match config_key_value(line@) {
            Some((k, v)) => r matches Some((a, b)) && a < b <= line.len() && k == line@.take(a as int) && v
                == line@.skip(b as int) && b == a + 1,
            None => r is None,
        },
{
    proof {
        assert(line@.subrange(0, line@.len() as int) =~= line@);
    }
    match find_char(line, 0, line.len(), '\n') {
        Some(i) => Some((i, i + 1)),
        None => match find_char(line, 0, line.len(), ' ') {
            Some(i) => Some((i, i + 1)),
            None => None,
        },
    }
}

/// Splits a key into name and field.
fn split_submodule_key(line: &[char], end: usize, prefix: &[char]) -> (r: Option<(usize, usize)>)
    requires
        end <= line.len(),
        prefix@ == "submodule."@,
    ensures
        match submodule_key(line@.take(end as int)) {
            Some((n, f)) => r matches Some((a, b)) && a <= b && b < end && n == line@.subrange(a as int, b as int)
                && f == line@.subrange(b + 1, end as int),
            None => r is None,
        },
{
    let ghost key = line@.take(end as int);
    proof {
        assert(line@.subrange(0, end as int) =~= key);
        reveal_strlit("submodule.");
    }
    if !chars_starts_with(line, 0, end, prefix) {
        return None;
    }
    let ghost rest = key.skip(10);
    match crate::text::rfind_char(line, 10, end, '.') {
        None => {
            proof {
                assert forall|j: int| 0 <= j < rest.len() implies rest[j] != '.' by {
                    assert(rest[j] == line@[10 + j]);
                }
                assert(!rest.contains('.'));
            }
            None
        },
        Some(j) => {
            proof {
                assert(rest[j as int] == '.');
                assert(rest.contains('.'));
                let c = choose|i: int|
                    0 <= i < rest.len() && rest[i] == '.' && forall|q: int| i < q < rest.len() ==> rest[q] != '.';
                assert(c == j as int) by {
                    if c < j {
                        assert(rest[j as int] == line@[10 + j]);
                    } else if c > j {
                        assert(rest[c] == line@[10 + c]);
                    }
                }
                assert(rest.take(j as int) =~= line@.subrange(10, 10 + j));
                assert(rest.skip(j + 1) =~= line@.subrange(10 + j + 1, end as int));
            }
            Some((10, 10 + j))
        },
    }
}

proof fn lemma_partial_lookup(
    orig: Seq<Partial>,
    m0: Map<Seq<char>, (Option<Seq<u8>>, Option<Seq<char>>)>,
    p: int,
    found: bool,
    nv: Seq<char>,
)
    requires
        partials_sorted(orig),
        partials_match(orig, m0),
        0 <= p <= orig.len(),
        forall|q: int| 0 <= q < p ==> lex_lt(#[trigger] orig[q].name@, nv),
        found ==> p < orig.len() && orig[p].name@ == nv,
        !found ==> p == orig.len() || (!lex_lt(orig[p].name@, nv) && orig[p].name@ != nv),
    ensures
        found ==> m0.contains_key(nv) && m0[nv] == partial_fields(orig[p]),
        !found ==> !m0.contains_key(nv),
        !found && p < orig.len() ==> lex_lt(nv, orig[p].name@),
{
    if !found && p < orig.len() {
        crate::text::lemma_lex_total(orig[p].name@, nv);
    }
    if !found && m0.contains_key(nv) {
        let k = choose|k: int| 0 <= k < orig.len() && orig[k].name@ == nv;
        crate::text::lemma_lex_irreflexive(nv);
        if k < p {
            assert(lex_lt(orig[k].name@, nv));
        } else if k > p {
            crate::text::lemma_lex_transitive(nv, orig[p].name@, orig[k].name@);
        }
    }
}

proof fn lemma_partials_step(
    orig: Seq<Partial>,
    m0: Map<Seq<char>, (Option<Seq<u8>>, Option<Seq<char>>)>,
    p: int,
    found: bool,
    nv: Seq<char>,
    entry: Partial,
    ps: Seq<Partial>,
)
    requires
        partials_sorted(orig),
        partials_match(orig, m0),
        0 <= p <= orig.len(),
        forall|q: int| 0 <= q < p ==> lex_lt(#[trigger] orig[q].name@, nv),
        found ==> p < orig.len() && orig[p].name@ == nv,
        !found ==> p == orig.len() || lex_lt(nv, orig[p].name@),
        entry.name@ == nv,
        ps == (if found {
            orig.update(p, entry)
        } else {
            orig.insert(p, entry)
        }),
    ensures
        partials_sorted(ps),
        partials_match(ps, m0.insert(nv, partial_fields(entry))),
{
    let m1 = m0.insert(nv, partial_fields(entry));
    if found {
        assert forall|i: int| 0 <= i < ps.len() implies (#[trigger] ps[i]).name@ == orig[i].name@ by {}
        assert(partials_sorted(ps)) by {
            assert forall|i: int, j: int| 0 <= i < j < ps.len() implies lex_lt(ps[i].name@, ps[j].name@) by {
                assert(ps[i].name@ == orig[i].name@);
                assert(ps[j].name@ == orig[j].name@);
            }
        }
        assert forall|k: int| 0 <= k < ps.len() implies m1.contains_key((#[trigger] ps[k]).name@) && m1[ps[k].name@]
            == partial_fields(ps[k]) by {
            if k != p {
                assert(ps[k] == orig[k]);
                if k < p {
                    assert(lex_lt(orig[k].name@, orig[p].name@));
                } else {
                    assert(lex_lt(orig[p].name@, orig[k].name@));
                }
                crate::text::lemma_lex_irreflexive(nv);
            }
        }
        assert forall|n: Seq<char>| #[trigger] m1.contains_key(n) implies exists|k: int| 0 <= k < ps.len() && ps[k].name@ == n by {
            if n == nv {
                assert(ps[p].name@ == n);
            } else {
                let k = choose|k: int| 0 <= k < orig.len() && orig[k].name@ == n;
                assert(ps[k].name@ == n);
            }
        }
    } else {
        assert forall|i: int, j: int| 0 <= i < j < ps.len() implies lex_lt(ps[i].name@, ps[j].name@) by {
            if j < p {
                assert(ps[i] == orig[i] && ps[j] == orig[j]);
            } else if j == p {
                assert(ps[i] == orig[i]);
            } else if i == p {
                assert(ps[j] == orig[j - 1]);
                if j - 1 > p {
                    crate::text::lemma_lex_transitive(nv, orig[p].name@, orig[j - 1].name@);
                }
            } else if i < p {
                assert(ps[i] == orig[i] && ps[j] == orig[j - 1]);
                assert(lex_lt(orig[i].name@, nv));
                if j - 1 == p {
                    crate::text::lemma_lex_transitive(orig[i].name@, nv, orig[p].name@);
                } else {
                    crate::text::lemma_lex_transitive(nv, orig[p].name@, orig[j - 1].name@);
                    crate::text::lemma_lex_transitive(orig[i].name@, nv, orig[j - 1].name@);
                }
            } else {
                assert(ps[i] == orig[i - 1] && ps[j] == orig[j - 1]);
            }
        }
        assert forall|k: int| 0 <= k < ps.len() implies m1.contains_key((#[trigger] ps[k]).name@) && m1[ps[k].name@]
            == partial_fields(ps[k]) by {
            crate::text::lemma_lex_irreflexive(nv);
            if k < p {
                assert(ps[k] == orig[k]);
                assert(lex_lt(orig[k].name@, nv));
            } else if k > p {
                assert(ps[k] == orig[k - 1]);
                if k - 1 > p {
                    crate::text::lemma_lex_transitive(nv, orig[p].name@, orig[k - 1].name@);
                }
                assert(lex_lt(nv, orig[k - 1].name@));
            }
        }
        assert forall|n: Seq<char>| #[trigger] m1.contains_key(n) implies exists|k: int| 0 <= k < ps.len() && ps[k].name@ == n by {
            if n == nv {
                assert(ps[p].name@ == n);
            } else {
                let k = choose|k: int| 0 <= k < orig.len() && orig[k].name@ == n;
                if k < p {
                    assert(ps[k].name@ == n);
                } else {
                    assert(ps[k + 1].name@ == n);
                }
            }
        }
    }
}

spec fn listing_entry(p: Partial) -> Option<SubmoduleEntryView> {
    match p.path {
        Some(path) => Some(
            SubmoduleEntryView {
                name: p.name@,
                path: path@,
                url: opt_text(p.url),
                recorded_oid: None,
                checked_out_oid: None,
                initialized: false,
                dirty: false,
            },
        ),
        None => None,
    }
}

spec fn listing_fn() -> spec_fn(Partial) -> Option<SubmoduleEntryView> {
    |p: Partial| listing_entry(p)
}

/// The entries that have a path, in order.
spec fn listing(ps: Seq<Partial>) -> Seq<SubmoduleEntryView> {
    ps.filter_map(listing_fn())
}

proof fn lemma_listing(ps: Seq<Partial>)
    requires
        partials_sorted(ps),
    ensures
        forall|a: int|
            0 <= a < listing(ps).len() ==> exists|q: int|
                0 <= q < ps.len() && ps[q].name@ == (#[trigger] listing(ps)[a]).name && partial_fields(ps[q]) == (
                Some(listing(ps)[a].path),
                listing(ps)[a].url,
            ),
        forall|a: int|
            0 <= a < listing(ps).len() ==> (#[trigger] listing(ps)[a]).recorded_oid is None && listing(ps)[a].checked_out_oid is None
                && !listing(ps)[a].initialized && !listing(ps)[a].dirty,
        forall|a: int, b: int| 0 <= a < b < listing(ps).len() ==> lex_lt(listing(ps)[a].name, listing(ps)[b].name),
        forall|q: int|
            0 <= q < ps.len() && (#[trigger] ps[q]).path is Some ==> exists|a: int|
                0 <= a < listing(ps).len() && listing(ps)[a].name == ps[q].name@,
    decreases ps.len(),
{
    if ps.len() > 0 {
        let pre = ps.drop_last();
        assert(partials_sorted(pre)) by {
            assert forall|i: int, j: int| 0 <= i < j < pre.len() implies lex_lt(pre[i].name@, pre[j].name@) by {
                assert(pre[i] == ps[i] && pre[j] == ps[j]);
            }
        }
        lemma_listing(pre);
        let lp = listing(pre);
        let l = listing(ps);
        let last = ps.last();
        match listing_entry(last) {
            Some(e) => {
                assert(l == lp + seq![e]);
                assert forall|a: int|
                    0 <= a < l.len() implies exists|q: int|
                        0 <= q < ps.len() && ps[q].name@ == (#[trigger] l[a]).name && partial_fields(ps[q]) == (
                        Some(l[a].path),
                        l[a].url,
                    ) by {
                    if a < lp.len() {
                        assert(l[a] == lp[a]);
                        let q = choose|q: int|
                            0 <= q < pre.len() && pre[q].name@ == (#[trigger] lp[a]).name && partial_fields(pre[q]) == (
                            Some(lp[a].path),
                            lp[a].url,
                        );
                        assert(ps[q] == pre[q]);
                    } else {
                        assert(ps[ps.len() - 1] == last);
                    }
                }
                assert forall|a: int, b: int| 0 <= a < b < l.len() implies lex_lt(l[a].name, l[b].name) by {
                    if b < lp.len() {
                        assert(l[a] == lp[a] && l[b] == lp[b]);
                    } else {
                        assert(l[a] == lp[a]);
                        let q = choose|q: int|
                            0 <= q < pre.len() && pre[q].name@ == (#[trigger] lp[a]).name && partial_fields(pre[q]) == (
                            Some(lp[a].path),
                            lp[a].url,
                        );
                        assert(ps[q] == pre[q]);
                        assert(lex_lt(ps[q].name@, ps[ps.len() - 1].name@));
                    }
                }
                assert forall|q: int|
                    0 <= q < ps.len() && (#[trigger] ps[q]).path is Some implies exists|a: int|
                        0 <= a < l.len() && l[a].name == ps[q].name@ by {
                    if q < pre.len() {
                        assert(pre[q] == ps[q]);
                        let a = choose|a: int| 0 <= a < lp.len() && lp[a].name == pre[q].name@;
                        assert(l[a] == lp[a]);
                    } else {
                        assert(l[l.len() - 1] == e);
                    }
                }
                assert forall|a: int|
                    0 <= a < l.len() implies (#[trigger] l[a]).recorded_oid is None && l[a].checked_out_oid is None
                        && !l[a].initialized && !l[a].dirty by {
                    if a < lp.len() {
                        assert(l[a] == lp[a]);
                    }
                }
            },
            None => {
                assert(l == lp);
                assert forall|a: int|
                    0 <= a < l.len() implies exists|q: int|
                        0 <= q < ps.len() && ps[q].name@ == (#[trigger] l[a]).name && partial_fields(ps[q]) == (
                        Some(l[a].path),
                        l[a].url,
                    ) by {
                    let q = choose|q: int|
                        0 <= q < pre.len() && pre[q].name@ == (#[trigger] lp[a]).name && partial_fields(pre[q]) == (
                        Some(lp[a].path),
                        lp[a].url,
                    );
                    assert(ps[q] == pre[q]);
                }
                assert forall|q: int|
                    0 <= q < ps.len() && (#[trigger] ps[q]).path is Some implies exists|a: int|
                        0 <= a < l.len() && l[a].name == ps[q].name@ by {
                    if q < pre.len() {
                        assert(pre[q] == ps[q]);
                    } else {
                        assert(ps[q] == last);
                    }
                }
            },
        }
    }
}

fn apply_config_record(
    partials: &mut Vec<Partial>,
    line: &[char],
    prefix: &[char],
    path_word: &[char],
    url_word: &[char],
    Ghost(m0): Ghost<Map<Seq<char>, (Option<Seq<u8>>, Option<Seq<char>>)>>,
)
    requires
        prefix@ == "submodule."@,
        path_word@ == "path"@,
        url_word@ == "url"@,
        partials_sorted(old(partials)@),
        partials_match(old(partials)@, m0),
    ensures
        partials_sorted(final(partials)@),
        partials_match(final(partials)@, submodule_step(m0, line@)),
{
    let kv = key_value(line);
    if let Some((ka, vb)) = kv {
        let nk = split_submodule_key(line, ka, prefix);
        if let Some((na, nb)) = nk {
            let name = chars_range(line, na, nb);
            let field = chars_range(line, nb + 1, ka);
            let value = string_of_range(line, vb, line.len());
            proof {
                assert(line@.subrange(vb as int, line@.len() as int) =~= line@.skip(vb as int));
            }
            let mut p: usize = 0;
            while p < partials.len() && chars_lt(&partials[p].name, &name)
                invariant
                    p <= partials.len(),
                    forall|q: int| 0 <= q < p ==> lex_lt(#[trigger] partials@[q].name@, name@),
                decreases partials.len() - p,
            {
                p += 1;
            }
            let found = p < partials.len() && chars_eq(&partials[p].name, &name);
            let ghost orig = partials@;
            proof {
                lemma_partial_lookup(orig, m0, p as int, found, name@);
            }
            let mut entry = if found {
                partials.remove(p)
            } else {
                Partial { name: chars_range(&name, 0, name.len()), path: None, url: None }
            };
            proof {
                assert(name@.subrange(0, name@.len() as int) =~= name@);
            }
            if chars_eq(&field, path_word) {
                entry.path = Some(text_bytes(value.as_str()));
            } else if chars_eq(&field, url_word) {
                entry.url = Some(redact_url(value.as_str()));
            }
            partials.insert(p, entry);
            proof {
                if found {
                    assert(partials@ =~= orig.update(p as int, partials@[p as int]));
                } else {
                    assert(partials@ =~= orig.insert(p as int, partials@[p as int]));
                }
                lemma_partials_step(orig, m0, p as int, found, name@, partials@[p as int], partials@);
                assert(submodule_step(m0, line@) == m0.insert(name@, partial_fields(partials@[p as int])));
            }
        }
    }
}

/// Parses `git config -z --file .gitmodules --get-regexp '^submodule\..*'`
/// output.
#[verifier::spinoff_prover]
#[verifier::rlimit(40)]
pub fn parse_submodule_config(bytes: &[u8]) -> (r: Vec<SubmoduleEntry>)
    ensures
        submodule_list_matches(bytes@, submodule_views(r@)),
{
    let recs = record_texts(bytes);
    let ghost rv = records_text(bytes@);
    let prefix = chars_of("submodule.");
    let path_word = chars_of("path");
    let url_word = chars_of("url");
    let mut partials: Vec<Partial> = Vec::new();
    let mut i: usize = 0;
    while i < recs.len()
        invariant
            i <= recs.len(),
            chars_views(recs@) == rv,
            prefix@ == "submodule."@,
            path_word@ == "path"@,
            url_word@ == "url"@,
            partials_sorted(partials@),
            partials_match(partials@, submodule_map(rv.take(i as int))),
        decreases recs.len() - i,
    {
        let line = &recs[i];
        proof {
            assert(rv.take(i + 1).drop_last() =~= rv.take(i as int));
            assert(rv.take(i + 1).last() == line@);
        }
        apply_config_record(&mut partials, line, &prefix, &path_word, &url_word, Ghost(submodule_map(rv.take(i as int))));
        i += 1;
    }
    proof {
        assert(rv.take(recs.len() as int) =~= rv);
    }
    let ghost m = submodule_map(rv);
    let mut out: Vec<SubmoduleEntry> = Vec::new();
    let mut k: usize = 0;
    while k < partials.len()
        invariant
            k <= partials.len(),
            submodule_views(out@) == listing(partials@.take(k as int)),
        decreases partials.len() - k,
    {
        let entry = &partials[k];
        proof {
            partials@.lemma_filter_map_take_succ(listing_fn(), k as int);
        }
        if let Some(path) = &entry.path {
            let url = match &entry.url {
                Some(u) => Some(u.clone()),
                None => None,
            };
            out.push(
                SubmoduleEntry {
                    name: string_of(&entry.name),
                    path: crate::git::copy_bytes(path),
                    url,
                    recorded_oid: None,
                    checked_out_oid: None,
                    initialized: false,
                    dirty: false,
                },
            );
            proof {
                assert(submodule_views(out@) =~= submodule_views(out@.drop_last()).push(out@.last()@));
                assert(out@.drop_last() == out@.take(out@.len() - 1));
            }
        }
        proof {
            assert(submodule_views(out@) =~= listing(partials@.take(k + 1)));
        }
        k += 1;
    }
    proof {
        assert(partials@.take(partials.len() as int) =~= partials@);
        lemma_listing(partials@);
        let ov = submodule_views(out@);
        assert forall|a: int|
            0 <= a < ov.len() implies {
                &&& m.contains_key((#[trigger] ov[a]).name)
                &&& m[ov[a].name].0 == Some(ov[a].path)
                &&& m[ov[a].name].1 == ov[a].url
                &&& ov[a].recorded_oid is None
                &&& ov[a].checked_out_oid is None
                &&& !ov[a].initialized
                &&& !ov[a].dirty
            } by {
            let q = choose|q: int|
                0 <= q < partials.len() && partials@[q].name@ == (#[trigger] ov[a]).name && partial_fields(partials@[q])
                    == (Some(ov[a].path), ov[a].url);
        }
        assert forall|n: Seq<char>| #[trigger] m.contains_key(n) && m[n].0 is Some implies exists|a: int|
            0 <= a < ov.len() && ov[a].name == n by {
            let q = choose|q: int| 0 <= q < partials.len() && partials@[q].name@ == n;
            assert(partials@[q].path is Some);
        }
    }
    out
}

} // verus!
