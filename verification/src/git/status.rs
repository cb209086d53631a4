//! Parser for `git status --porcelain=v2 -z --branch` output.
use super::{
    copy_bytes, copy_opt_bytes, opt_bytes_view, Change, ChangeId, ChangeKey, ChangeKeyView,
    ChangeKind, ChangeSection, ChangeView, GitError, SnapshotView, StatusSnapshot, changes_view,
};
use super::opt_components;
use crate::path::components;
use crate::text::{
    bytes_range,    chars_of, chars_starts_with, concat, copy_str, keep_nonempty, lossy_chars, lossy_text,
    nonempty_pieces, parse_unsigned, parse_unsigned_range, spans_describe, split, split_bytes,
    starts_with, string_of_range, utf8_text, word_spans, words,
};
use vstd::prelude::*;
use vstd::utf8::{decode_utf8, valid_utf8};

verus! {

/// The NUL-separated, non-empty records of the output.
pub open spec fn records_of(bytes: Seq<u8>) -> Seq<Seq<u8>> {
    nonempty_pieces(split(bytes, 0u8))
}

/// The pieces of `r` split at spaces, with at most `n` pieces: once `n - 1`
/// spaces have been used, the rest of the record is the last piece.
pub open spec fn fields(r: Seq<u8>, n: int) -> Seq<Seq<u8>>
    decreases r.len(),
{
    if r.len() == 0 {
        seq![Seq::empty()]
    } else {
        let pre = fields(r.drop_last(), n);
        if r.last() == 32u8 && pre.len() < n {
            pre.push(Seq::empty())
        } else {
            pre.update(pre.len() - 1, pre.last().push(r.last()))
        }
    }
}

proof fn lemma_fields_nonempty(r: Seq<u8>, n: int)
    ensures
        fields(r, n).len() >= 1,
    decreases r.len(),
{
    if r.len() > 0 {
        lemma_fields_nonempty(r.drop_last(), n);
    }
}

/// Text of a field that must be UTF-8; anything else reads as empty.
pub open spec fn strict_text(b: Seq<u8>) -> Seq<char> {
    if valid_utf8(b) {
        decode_utf8(b)
    } else {
        Seq::empty()
    }
}

/// Character `i` of a status code, `.` where it is missing.
pub open spec fn code_char(xy: Seq<char>, i: int) -> char {
    if i < xy.len() {
        xy[i]
    } else {
        '.'
    }
}

/// Kind named by a single status letter.
pub open spec fn kind_of_status(c: char) -> ChangeKind {
    if c == 'A' {
        ChangeKind::Added
    } else if c == 'D' {
        ChangeKind::Deleted
    } else if c == 'R' {
        ChangeKind::Renamed
    } else if c == 'C' {
        ChangeKind::Copied
    } else if c == 'T' {
        ChangeKind::TypeChanged
    } else {
        ChangeKind::Modified
    }
}

/// A new change row appended to `snap`, numbered by its position.
pub open spec fn with_change(
    snap: SnapshotView,
    section: ChangeSection,
    kind: ChangeKind,
    path: Seq<u8>,
    original: Option<Seq<u8>>,
    xy: Seq<char>,
) -> SnapshotView {
    let key = ChangeKeyView {
        repo_id: None,
        section,
        kind,
        path: components(path),
        original_path: opt_components(original),
        xy,
    };
    let change = ChangeView {
        id: snap.changes.len() as usize,
        key,
        section,
        kind,
        path,
        original_path: original,
        xy,
    };
    SnapshotView { changes: snap.changes.push(change), ..snap }
}

/// Rows for a tracked entry: one for the index side (`X`) and one for the
/// work tree side (`Y`), each only when that side changed.
pub open spec fn with_xy(snap: SnapshotView, xy: Seq<char>, path: Seq<u8>, original: Option<Seq<u8>>) -> SnapshotView {
    let x = code_char(xy, 0);
    let y = code_char(xy, 1);
    let s1 = if x != '.' && x != ' ' {
        with_change(snap, ChangeSection::Staged, kind_of_status(x), path, original, xy)
    } else {
        snap
    };
    if y != '.' && y != ' ' {
        with_change(s1, ChangeSection::Unstaged, kind_of_status(y), path, None, xy)
    } else {
        s1
    }
}

/// The kind a status letter names, as `git status` documents the letters.
pub open spec fn letter_names(c: char, k: ChangeKind) -> bool {
    &&& c == 'M' ==> k == ChangeKind::Modified
    &&& c == 'A' ==> k == ChangeKind::Added
    &&& c == 'D' ==> k == ChangeKind::Deleted
    &&& c == 'R' ==> k == ChangeKind::Renamed
    &&& c == 'C' ==> k == ChangeKind::Copied
    &&& c == 'T' ==> k == ChangeKind::TypeChanged
}

/// The rows of a tracked entry with status letters `xy`: a changed index
/// side (`X`) gives a Staged row of the kind its letter names, then a
/// changed work tree side (`Y`) an Unstaged row of the kind its letter
/// names; an unchanged side (`.`) gives no row.
pub proof fn lemma_status_letters(snap: SnapshotView, xy: Seq<char>, path: Seq<u8>, original: Option<Seq<u8>>)
    ensures
        ({
            let s = with_xy(snap, xy, path, original);
            let x = code_char(xy, 0);
            let y = code_char(xy, 1);
            let n = snap.changes.len();
            &&& s.changes.len() == n + (if x != '.' && x != ' ' { 1int } else { 0 }) + (if y != '.' && y != ' ' {
                1int
            } else {
                0
            })
            &&& x != '.' && x != ' ' ==> s.changes[n as int].section == ChangeSection::Staged && letter_names(
                x,
                s.changes[n as int].kind,
            ) && s.changes[n as int].path == path
            &&& y != '.' && y != ' ' ==> s.changes.last().section == ChangeSection::Unstaged && letter_names(
                y,
                s.changes.last().kind,
            ) && s.changes.last().path == path
        }),
{
}

/// An optional parsed number narrowed to `u32`.
pub open spec fn opt_u32(o: Option<int>) -> Option<u32> {
    match o {
        Some(v) => Some(v as u32),
        None => None,
    }
}

/// Ahead/behind counts from the words of a `# branch.ab` header: `+N` sets
/// ahead, `-N` sets behind, later words win, and an unparsable count
/// becomes absent.
pub open spec fn ahead_behind(ws: Seq<Seq<char>>, ahead: Option<u32>, behind: Option<u32>) -> (Option<u32>, Option<u32>)
    decreases ws.len(),
{
    if ws.len() == 0 {
        (ahead, behind)
    } else {
        let (a, b) = ahead_behind(ws.drop_last(), ahead, behind);
        let w = ws.last();
        if w.len() > 0 && w[0] == '+' {
            (opt_u32(parse_unsigned(w.drop_first(), u32::MAX as int)), b)
        } else if w.len() > 0 && w[0] == '-' {
            (a, opt_u32(parse_unsigned(w.drop_first(), u32::MAX as int)))
        } else {
            (a, b)
        }
    }
}

/// Effect of an ordinary (`1 `) record.
pub open spec fn ordinary_record(r: Seq<u8>, snap: SnapshotView) -> Result<SnapshotView, Seq<char>> {
    let parts = fields(r, 9);
    if parts.len() < 9 {
        Err("invalid porcelain record: "@ + lossy_chars(r))
    } else {
        Ok(with_xy(snap, strict_text(parts[1]), parts[8], None))
    }
}

/// Effect of a rename or copy (`2 `) record followed by its original path.
pub open spec fn renamed_record(r: Seq<u8>, original: Option<Seq<u8>>, snap: SnapshotView) -> Result<SnapshotView, Seq<char>> {
    let parts = fields(r, 10);
    if parts.len() < 10 {
        Err("invalid rename porcelain record: "@ + lossy_chars(r))
    } else {
        Ok(with_xy(snap, strict_text(parts[1]), parts[9], original))
    }
}

/// Effect of an unmerged (`u `) record: a single conflict row.
pub open spec fn unmerged_record(r: Seq<u8>, snap: SnapshotView) -> Result<SnapshotView, Seq<char>> {
    let parts = fields(r, 11);
    if parts.len() < 11 {
        Err("invalid unmerged porcelain record: "@ + lossy_chars(r))
    } else {
        Ok(with_change(snap, ChangeSection::Conflict, ChangeKind::Conflict, parts[10], None, strict_text(parts[1])))
    }
}

pub open spec fn head_prefix() -> Seq<char> {
    "# branch.head "@
}

pub open spec fn ab_prefix() -> Seq<char> {
    "# branch.ab "@
}

/// Status after reading records `i..` of `recs`, starting from `snap`; the
/// first malformed record ends the parse with its error.
pub open spec fn parse_records(recs: Seq<Seq<u8>>, i: int, snap: SnapshotView) -> Result<SnapshotView, Seq<char>>
    decreases recs.len() - i,
{
    if i < 0 || i >= recs.len() {
        Ok(snap)
    } else {
        let r = recs[i];
        let t = lossy_chars(r);
        if starts_with(t, head_prefix()) {
            parse_records(recs, i + 1, SnapshotView { branch: t.skip(head_prefix().len() as int), ..snap })
        } else if starts_with(t, ab_prefix()) {
            let (a, b) = ahead_behind(words(t.skip(ab_prefix().len() as int)), snap.ahead, snap.behind);
            parse_records(recs, i + 1, SnapshotView { ahead: a, behind: b, ..snap })
        } else if starts_with(r, seq![35u8, 32u8]) {
            parse_records(recs, i + 1, snap)
        } else if starts_with(r, seq![49u8, 32u8]) {
            match ordinary_record(r, snap) {
                Ok(s) => parse_records(recs, i + 1, s),
                Err(e) => Err(e),
            }
        } else if starts_with(r, seq![50u8, 32u8]) {
            let original = if i + 1 < recs.len() {
                Some(recs[i + 1])
            } else {
                None
            };
            match renamed_record(r, original, snap) {
                Ok(s) => parse_records(recs, if i + 1 < recs.len() { i + 2 } else { i + 1 }, s),
                Err(e) => Err(e),
            }
        } else if starts_with(r, seq![117u8, 32u8]) {
            match unmerged_record(r, snap) {
                Ok(s) => parse_records(recs, i + 1, s),
                Err(e) => Err(e),
            }
        } else if starts_with(r, seq![63u8, 32u8]) {
            parse_records(
                recs,
                i + 1,
                with_change(snap, ChangeSection::Untracked, ChangeKind::Untracked, r.skip(2), None, "??"@),
            )
        } else if starts_with(r, seq![33u8, 32u8]) {
            parse_records(
                recs,
                i + 1,
                with_change(snap, ChangeSection::Ignored, ChangeKind::Ignored, r.skip(2), None, "!!"@),
            )
        } else {
            parse_records(recs, i + 1, snap)
        }
    }
}

/// The snapshot before any record is read.
pub open spec fn initial_snapshot() -> SnapshotView {
    SnapshotView { branch: "HEAD"@, ahead: None, behind: None, changes: Seq::empty() }
}

/// What `parse_status` yields for the given output.
pub open spec fn status_spec(bytes: Seq<u8>) -> Result<SnapshotView, Seq<char>> {
    parse_records(records_of(bytes), 0, initial_snapshot())
}

/// Each change carries its position in the list as its id.
pub open spec fn numbered(cs: Seq<ChangeView>) -> bool {
    forall|i: int| 0 <= i < cs.len() ==> #[trigger] cs[i].id == i as usize
}

proof fn lemma_with_change_numbered(
    snap: SnapshotView,
    section: ChangeSection,
    kind: ChangeKind,
    path: Seq<u8>,
    original: Option<Seq<u8>>,
    xy: Seq<char>,
)
    requires
        numbered(snap.changes),
    ensures
        numbered(with_change(snap, section, kind, path, original, xy).changes),
{
    let cs = with_change(snap, section, kind, path, original, xy).changes;
    assert forall|i: int| 0 <= i < cs.len() implies #[trigger] cs[i].id == i as usize by {
        if i < snap.changes.len() {
            assert(cs[i] == snap.changes[i]);
        }
    }
}

proof fn lemma_with_xy_numbered(snap: SnapshotView, xy: Seq<char>, path: Seq<u8>, original: Option<Seq<u8>>)
    requires
        numbered(snap.changes),
    ensures
        numbered(with_xy(snap, xy, path, original).changes),
{
    let x = code_char(xy, 0);
    let y = code_char(xy, 1);
    if x != '.' && x != ' ' {
        lemma_with_change_numbered(snap, ChangeSection::Staged, kind_of_status(x), path, original, xy);
        let s1 = with_change(snap, ChangeSection::Staged, kind_of_status(x), path, original, xy);
        if y != '.' && y != ' ' {
            lemma_with_change_numbered(s1, ChangeSection::Unstaged, kind_of_status(y), path, None, xy);
        }
    } else if y != '.' && y != ' ' {
        lemma_with_change_numbered(snap, ChangeSection::Unstaged, kind_of_status(y), path, None, xy);
    }
}

proof fn lemma_records_numbered(recs: Seq<Seq<u8>>, i: int, snap: SnapshotView)
    requires
        numbered(snap.changes),
    ensures
        parse_records(recs, i, snap) matches Ok(v) ==> numbered(v.changes),
    decreases recs.len() - i,
{
    if 0 <= i < recs.len() {
        let r = recs[i];
        let t = lossy_chars(r);
        if starts_with(t, head_prefix()) {
            lemma_records_numbered(recs, i + 1, SnapshotView { branch: t.skip(head_prefix().len() as int), ..snap });
        } else if starts_with(t, ab_prefix()) {
            let (a, b) = ahead_behind(words(t.skip(ab_prefix().len() as int)), snap.ahead, snap.behind);
            lemma_records_numbered(recs, i + 1, SnapshotView { ahead: a, behind: b, ..snap });
        } else if starts_with(r, seq![35u8, 32u8]) {
            lemma_records_numbered(recs, i + 1, snap);
        } else if starts_with(r, seq![49u8, 32u8]) {
            let parts = fields(r, 9);
            if parts.len() >= 9 {
                lemma_with_xy_numbered(snap, strict_text(parts[1]), parts[8], None);
                lemma_records_numbered(recs, i + 1, with_xy(snap, strict_text(parts[1]), parts[8], None));
            }
        } else if starts_with(r, seq![50u8, 32u8]) {
            let original = if i + 1 < recs.len() {
                Some(recs[i + 1])
            } else {
                None
            };
            let parts = fields(r, 10);
            if parts.len() >= 10 {
                let s = with_xy(snap, strict_text(parts[1]), parts[9], original);
                lemma_with_xy_numbered(snap, strict_text(parts[1]), parts[9], original);
                lemma_records_numbered(recs, if i + 1 < recs.len() { i + 2 } else { i + 1 }, s);
            }
        } else if starts_with(r, seq![117u8, 32u8]) {
            let parts = fields(r, 11);
            if parts.len() >= 11 {
                let xy = strict_text(parts[1]);
                lemma_with_change_numbered(snap, ChangeSection::Conflict, ChangeKind::Conflict, parts[10], None, xy);
                lemma_records_numbered(
                    recs,
                    i + 1,
                    with_change(snap, ChangeSection::Conflict, ChangeKind::Conflict, parts[10], None, xy),
                );
            }
        } else if starts_with(r, seq![63u8, 32u8]) {
            lemma_with_change_numbered(snap, ChangeSection::Untracked, ChangeKind::Untracked, r.skip(2), None, "??"@);
            lemma_records_numbered(
                recs,
                i + 1,
                with_change(snap, ChangeSection::Untracked, ChangeKind::Untracked, r.skip(2), None, "??"@),
            );
        } else if starts_with(r, seq![33u8, 32u8]) {
            lemma_with_change_numbered(snap, ChangeSection::Ignored, ChangeKind::Ignored, r.skip(2), None, "!!"@);
            lemma_records_numbered(
                recs,
                i + 1,
                with_change(snap, ChangeSection::Ignored, ChangeKind::Ignored, r.skip(2), None, "!!"@),
            );
        } else {
            lemma_records_numbered(recs, i + 1, snap);
        }
    }
}

/// The changes of a parsed status are numbered in the order of their rows:
/// the change at position `i` has id `i`.
pub proof fn lemma_ids_follow_rows(bytes: Seq<u8>)
    ensures
        status_spec(bytes) matches Ok(v) ==> numbered(v.changes),
{
    lemma_records_numbered(records_of(bytes), 0, initial_snapshot());
}

/// Spans of `fields(s[start..end], n)`.
fn split_fields(s: &[u8], start: usize, end: usize, n: usize) -> (spans: Vec<(usize, usize)>)
    requires
        start <= end <= s.len(),
    ensures
        spans_describe(s@, spans@, fields(s@.subrange(start as int, end as int), n as int)),
{
    let ghost t = s@.subrange(start as int, end as int);
    let mut spans: Vec<(usize, usize)> = Vec::new();
    let mut first: usize = start;
    let mut i: usize = start;
    proof {
        assert(t.take(0) =~= Seq::<u8>::empty());
    }
    while i < end
        invariant
            start <= first <= i <= end <= s.len(),
            t == s@.subrange(start as int, end as int),
            fields(t.take(i - start), n as int).len() == spans.len() + 1,
            spans_describe(s@, spans@, fields(t.take(i - start), n as int).take(spans.len() as int)),
            s@.subrange(first as int, i as int) == fields(t.take(i - start), n as int).last(),
        decreases end - i,
    {
        let ghost pre = fields(t.take(i - start), n as int);
        proof {
            assert(t.take(i + 1 - start).drop_last() =~= t.take(i - start));
            assert(t.take(i + 1 - start).last() == s@[i as int]);
            lemma_fields_nonempty(t.take(i - start), n as int);
        }
        if s[i] == 32u8 && n > 0 && spans.len() < n - 1 {
            spans.push((first, i));
            first = i + 1;
            proof {
                let now = fields(t.take(i + 1 - start), n as int);
                assert(now == pre.push(Seq::empty()));
                assert(now.take(spans.len() as int) =~= pre);
                assert(s@.subrange(first as int, i + 1) =~= Seq::<u8>::empty());
            }
        } else {
            proof {
                let now = fields(t.take(i + 1 - start), n as int);
                assert(now == pre.update(pre.len() - 1, pre.last().push(s@[i as int])));
                assert(now.take(spans.len() as int) =~= pre.take(spans.len() as int));
                assert(s@.subrange(first as int, i + 1) =~= s@.subrange(first as int, i as int).push(
                    s@[i as int],
                ));
            }
        }
        i += 1;
    }
    spans.push((first, i));
    proof {
        assert(t.take(end - start) =~= t);
        let all = fields(t, n as int);
        assert(all.take(spans.len() as int) =~= all);
        assert forall|k: int| 0 <= k < spans.len() implies {
            &&& (#[trigger] spans@[k]).0 <= spans@[k].1 <= s@.len()
            &&& s@.subrange(spans@[k].0 as int, spans@[k].1 as int) == all[k]
        } by {
            if k < spans.len() - 1 {
                assert(all.take(spans.len() - 1)[k] == all[k]);
            }
        }
    }
    spans
}

/// `strict_text` of `s[a..b]`.
fn field_text(s: &[u8], a: usize, b: usize) -> (t: String)
    requires
        a <= b <= s.len(),
    ensures
        t@ == strict_text(s@.subrange(a as int, b as int)),
{
    match utf8_text(&s[a..b]) {
        Some(t) => t,
        None => String::new(),
    }
}

fn kind_from_status(c: char) -> (k: ChangeKind)
    ensures
        k == kind_of_status(c),
{
    if c == 'A' {
        ChangeKind::Added
    } else if c == 'D' {
        ChangeKind::Deleted
    } else if c == 'R' {
        ChangeKind::Renamed
    } else if c == 'C' {
        ChangeKind::Copied
    } else if c == 'T' {
        ChangeKind::TypeChanged
    } else {
        ChangeKind::Modified
    }
}

fn push_change(
    snapshot: &mut StatusSnapshot,
    section: ChangeSection,
    kind: ChangeKind,
    path: Vec<u8>,
    original: Option<Vec<u8>>,
    xy: String,
)
    ensures
        final(snapshot)@ == with_change(old(snapshot)@, section, kind, path@, opt_bytes_view(original), xy@),
{
    let id = ChangeId(snapshot.changes.len());
    let key = ChangeKey {
        repo_id: None,
        section,
        kind,
        path: copy_bytes(&path),
        original_path: copy_opt_bytes(&original),
        xy: xy.clone(),
    };
    let ghost before = snapshot.changes@;
    snapshot.changes.push(Change { id, key, section, kind, path, original_path: original, xy });
    proof {
        assert(changes_view(snapshot.changes@) =~= changes_view(before).push(snapshot.changes@.last()@));
    }
}

fn push_xy(snapshot: &mut StatusSnapshot, xy: String, path: Vec<u8>, original: Option<Vec<u8>>)
    ensures
        final(snapshot)@ == with_xy(old(snapshot)@, xy@, path@, opt_bytes_view(original)),
{
    let codes = chars_of(xy.as_str());
    let x = if codes.len() > 0 { codes[0] } else { '.' };
    let y = if codes.len() > 1 { codes[1] } else { '.' };
    if x != '.' && x != ' ' {
        push_change(snapshot, ChangeSection::Staged, kind_from_status(x), copy_bytes(&path), original, xy.clone());
    }
    if y != '.' && y != ' ' {
        push_change(snapshot, ChangeSection::Unstaged, kind_from_status(y), path, None, xy);
    }
}

fn invalid_record(prefix: &str, record: &[u8]) -> (e: GitError)
    ensures
        e@ == prefix@ + lossy_chars(record@),
{
    let text = lossy_text(record);
    GitError::new(concat(prefix, text.as_str()))
}

fn parse_ordinary(s: &[u8], a: usize, b: usize, snapshot: &mut StatusSnapshot) -> (r: Result<(), GitError>)
    requires
        a <= b <= s.len(),
    ensures
        match ordinary_record(s@.subrange(a as int, b as int), old(snapshot)@) {
            Ok(v) => r is Ok && final(snapshot)@ == v,
            Err(m) => r matches Err(e) && e@ == m,
        },
{
    let parts = split_fields(s, a, b, 9);
    if parts.len() < 9 {
        return Err(invalid_record("invalid porcelain record: ", &s[a..b]));
    }
    let xy = field_text(s, parts[1].0, parts[1].1);
    let path = bytes_range(s, parts[8].0, parts[8].1);
    push_xy(snapshot, xy, path, None);
    Ok(())
}

fn parse_renamed(
    s: &[u8],
    a: usize,
    b: usize,
    original: Option<Vec<u8>>,
    snapshot: &mut StatusSnapshot,
) -> (r: Result<(), GitError>)
    requires
        a <= b <= s.len(),
    ensures
        match renamed_record(s@.subrange(a as int, b as int), opt_bytes_view(original), old(snapshot)@) {
            Ok(v) => r is Ok && final(snapshot)@ == v,
            Err(m) => r matches Err(e) && e@ == m,
        },
{
    let parts = split_fields(s, a, b, 10);
    if parts.len() < 10 {
        return Err(invalid_record("invalid rename porcelain record: ", &s[a..b]));
    }
    let xy = field_text(s, parts[1].0, parts[1].1);
    let path = bytes_range(s, parts[9].0, parts[9].1);
    push_xy(snapshot, xy, path, original);
    Ok(())
}

fn parse_unmerged(s: &[u8], a: usize, b: usize, snapshot: &mut StatusSnapshot) -> (r: Result<(), GitError>)
    requires
        a <= b <= s.len(),
    ensures
        match unmerged_record(s@.subrange(a as int, b as int), old(snapshot)@) {
            Ok(v) => r is Ok && final(snapshot)@ == v,
            Err(m) => r matches Err(e) && e@ == m,
        },
{
    let parts = split_fields(s, a, b, 11);
    if parts.len() < 11 {
        return Err(invalid_record("invalid unmerged porcelain record: ", &s[a..b]));
    }
    let xy = field_text(s, parts[1].0, parts[1].1);
    let path = bytes_range(s, parts[10].0, parts[10].1);
    push_change(snapshot, ChangeSection::Conflict, ChangeKind::Conflict, path, None, xy);
    Ok(())
}

fn parse_ahead_behind(t: &[char], start: usize, snapshot: &mut StatusSnapshot)
    requires
        start <= t.len(),
    ensures
        (final(snapshot).ahead, final(snapshot).behind) == ahead_behind(
            words(t@.subrange(start as int, t@.len() as int)),
            old(snapshot).ahead,
            old(snapshot).behind,
        ),
        final(snapshot).branch == old(snapshot).branch,
        final(snapshot).changes == old(snapshot).changes,
{
    let ghost ws = words(t@.subrange(start as int, t@.len() as int));
    let spans = word_spans(t, start, t.len());
    let mut i: usize = 0;
    while i < spans.len()
        invariant
            i <= spans.len(),
            spans_describe(t@, spans@, ws),
            ws == words(t@.subrange(start as int, t@.len() as int)),
            (snapshot.ahead, snapshot.behind) == ahead_behind(ws.take(i as int), old(snapshot).ahead, old(snapshot).behind),
            snapshot.branch == old(snapshot).branch,
            snapshot.changes == old(snapshot).changes,
        decreases spans.len() - i,
    {
        let (a, b) = spans[i];
        proof {
            assert(ws.take(i + 1).drop_last() =~= ws.take(i as int));
            assert(ws.take(i + 1).last() == ws[i as int]);
            assert(t@.subrange(a + 1, b as int) =~= ws[i as int].drop_first());
        }
        if a < b && t[a] == '+' {
            let v = parse_unsigned_range(t, a + 1, b, 0xffff_ffff);
            snapshot.ahead = match v {
                Some(n) => Some(n as u32),
                None => None,
            };
        } else if a < b && t[a] == '-' {
            let v = parse_unsigned_range(t, a + 1, b, 0xffff_ffff);
            snapshot.behind = match v {
                Some(n) => Some(n as u32),
                None => None,
            };
        }
        i += 1;
    }
    proof {
        assert(ws.take(spans.len() as int) =~= ws);
    }
}

/// Parses `git status --porcelain=v2 -z --branch` output.
pub fn parse_status(bytes: &[u8]) -> (r: Result<StatusSnapshot, GitError>)
    ensures
        match status_spec(bytes@) {
            Ok(v) => r matches Ok(s) && s@ == v,
            Err(m) => r matches Err(e) && e@ == m,
        },
{
    let mut snapshot = StatusSnapshot {
        branch: copy_str("HEAD"),
        ahead: None,
        behind: None,
        changes: Vec::new(),
    };
    let pieces = split_bytes(bytes, 0u8);
    let records = keep_nonempty(bytes, &pieces, Ghost(split(bytes@, 0u8)));
    let ghost recs = records_of(bytes@);
    proof {
        assert(changes_view(snapshot.changes@) =~= Seq::<ChangeView>::empty());
    }
    let head = chars_of("# branch.head ");
    let ab = chars_of("# branch.ab ");
    let mut i: usize = 0;
    while i < records.len()
        invariant
            i <= records.len(),
            recs == records_of(bytes@),
            spans_describe(bytes@, records@, recs),
            head@ == head_prefix(),
            ab@ == ab_prefix(),
            status_spec(bytes@) == parse_records(recs, i as int, snapshot@),
        decreases records.len() - i,
    {
        let (a, b) = records[i];
        let record = &bytes[a..b];
        let ghost r = recs[i as int];
        let text_s = lossy_text(record);
        let text = chars_of(text_s.as_str());
        if chars_starts_with(&text, 0, text.len(), &head) {
            proof {
                assert(text@.subrange(0, text@.len() as int) =~= text@);
            }
            snapshot.branch = string_of_range(&text, head.len(), text.len());
            proof {
                assert(text@.subrange(head.len() as int, text@.len() as int) =~= text@.skip(head@.len() as int));
            }
            i += 1;
            continue;
        }
        if chars_starts_with(&text, 0, text.len(), &ab) {
            proof {
                assert(text@.subrange(0, text@.len() as int) =~= text@);
            }
            parse_ahead_behind(&text, ab.len(), &mut snapshot);
            proof {
                assert(text@.subrange(ab.len() as int, text@.len() as int) =~= text@.skip(ab@.len() as int));
            }
            i += 1;
            continue;
        }
        proof {
            assert(text@ =~= text@.subrange(0, text@.len() as int));
            assert(record@ =~= bytes@.subrange(a as int, b as int));
        }
        let kind = if b - a >= 2 && bytes[a + 1] == 32u8 { bytes[a] } else { 0u8 };
        proof {
            assert(starts_with(r, seq![35u8, 32u8]) <==> kind == 35u8) by {
                if b - a >= 2 {
                    assert(r.take(2)[0] == r[0] && r.take(2)[1] == r[1]);
                    if kind == 35u8 {
                        assert(r.take(2) =~= seq![35u8, 32u8]);
                    }
                }
            }
            assert(starts_with(r, seq![49u8, 32u8]) <==> kind == 49u8) by {
                if b - a >= 2 {
                    assert(r.take(2)[0] == r[0] && r.take(2)[1] == r[1]);
                    if kind == 49u8 {
                        assert(r.take(2) =~= seq![49u8, 32u8]);
                    }
                }
            }
            assert(starts_with(r, seq![50u8, 32u8]) <==> kind == 50u8) by {
                if b - a >= 2 {
                    assert(r.take(2)[0] == r[0] && r.take(2)[1] == r[1]);
                    if kind == 50u8 {
                        assert(r.take(2) =~= seq![50u8, 32u8]);
                    }
                }
            }
            assert(starts_with(r, seq![117u8, 32u8]) <==> kind == 117u8) by {
                if b - a >= 2 {
                    assert(r.take(2)[0] == r[0] && r.take(2)[1] == r[1]);
                    if kind == 117u8 {
                        assert(r.take(2) =~= seq![117u8, 32u8]);
                    }
                }
            }
            assert(starts_with(r, seq![63u8, 32u8]) <==> kind == 63u8) by {
                if b - a >= 2 {
                    assert(r.take(2)[0] == r[0] && r.take(2)[1] == r[1]);
                    if kind == 63u8 {
                        assert(r.take(2) =~= seq![63u8, 32u8]);
                    }
                }
            }
            assert(starts_with(r, seq![33u8, 32u8]) <==> kind == 33u8) by {
                if b - a >= 2 {
                    assert(r.take(2)[0] == r[0] && r.take(2)[1] == r[1]);
                    if kind == 33u8 {
                        assert(r.take(2) =~= seq![33u8, 32u8]);
                    }
                }
            }
        }
        if kind == 35u8 {
            i += 1;
        } else if kind == 49u8 {
            match parse_ordinary(bytes, a, b, &mut snapshot) {
                Ok(()) => {},
                Err(e) => {
                    return Err(e);
                },
            }
            i += 1;
        } else if kind == 50u8 {
            let original = if i + 1 < records.len() {
                let (c, d) = records[i + 1];
                Some(bytes_range(bytes, c, d))
            } else {
                None
            };
            let has_original = original.is_some();
            match parse_renamed(bytes, a, b, original, &mut snapshot) {
                Ok(()) => {},
                Err(e) => {
                    return Err(e);
                },
            }
            i += if has_original { 2 } else { 1 };
        } else if kind == 117u8 {
            match parse_unmerged(bytes, a, b, &mut snapshot) {
                Ok(()) => {},
                Err(e) => {
                    return Err(e);
                },
            }
            i += 1;
        } else if kind == 63u8 {
            let path = bytes_range(bytes, a + 2, b);
            proof {
                assert(path@ =~= r.skip(2));
            }
            push_change(&mut snapshot, ChangeSection::Untracked, ChangeKind::Untracked, path, None, copy_str("??"));
            i += 1;
        } else if kind == 33u8 {
            let path = bytes_range(bytes, a + 2, b);
            proof {
                assert(path@ =~= r.skip(2));
            }
            push_change(&mut snapshot, ChangeSection::Ignored, ChangeKind::Ignored, path, None, copy_str("!!"));
            i += 1;
        } else {
            i += 1;
        }
    }
    Ok(snapshot)
}

} // verus!
