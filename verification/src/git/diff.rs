//! Unified diff parsing and single-hunk patch extraction.
use super::DiffTarget;
use crate::text::{bytes_range, chars_of, chars_starts_with, copy_str, lossy_chars, lossy_text, starts_with};
use vstd::prelude::*;

verus! {

/// How a diff line is shown.
#[derive(Debug, Clone, Copy, PartialEq, Eq)]
pub enum DiffKind {
    Header,
    Hunk,
    Add,
    Delete,
    Context,
    Metadata,
}

/// One displayed line of a diff.
#[derive(Debug, Clone)]
pub struct DiffLine {
    pub kind: DiffKind,
    pub text: String,
}

/// A hunk: the line it starts on, its header, and the byte range of the
/// raw patch it covers.
#[derive(Debug, Clone)]
pub struct DiffHunk {
    pub start_line: usize,
    pub header: String,
    pub raw_start: usize,
    pub raw_end: usize,
}

/// A parsed diff together with the raw patch it came from.
#[derive(Debug, Clone)]
pub struct Diff {
    pub target: DiffTarget,
    pub context_lines: u8,
    pub whitespace: WhitespaceMode,
    pub lines: Vec<DiffLine>,
    pub hunks: Vec<DiffHunk>,
    pub is_binary: bool,
    pub additions: usize,
    pub deletions: usize,
    pub raw_patch: Vec<u8>,
}

/// Whitespace handling of a diff.
#[derive(Debug, Clone, Copy, PartialEq, Eq, PartialOrd, Ord, Hash)]
pub enum WhitespaceMode {
    Normal,
    IgnoreSpaceChange,
    IgnoreAllSpace,
}

impl WhitespaceMode {
    pub open spec fn spec_label(self) -> Seq<char> {
        match self {
            WhitespaceMode::Normal => "normal"@,
            WhitespaceMode::IgnoreSpaceChange => "space-change"@,
            WhitespaceMode::IgnoreAllSpace => "all-space"@,
        }
    }

    pub fn label(self) -> (s: &'static str)
        ensures
            s@ == self.spec_label(),
    {
        match self {
            WhitespaceMode::Normal => "normal",
            WhitespaceMode::IgnoreSpaceChange => "space-change",
            WhitespaceMode::IgnoreAllSpace => "all-space",
        }
    }

    pub open spec fn spec_next(self) -> WhitespaceMode {
        match self {
            WhitespaceMode::Normal => WhitespaceMode::IgnoreSpaceChange,
            WhitespaceMode::IgnoreSpaceChange => WhitespaceMode::IgnoreAllSpace,
            WhitespaceMode::IgnoreAllSpace => WhitespaceMode::Normal,
        }
    }

    /// The next mode in the cycle normal -> space-change -> all-space.
    pub fn next(self) -> (m: WhitespaceMode)
        ensures
            m == self.spec_next(),
    {
        match self {
            WhitespaceMode::Normal => WhitespaceMode::IgnoreSpaceChange,
            WhitespaceMode::IgnoreSpaceChange => WhitespaceMode::IgnoreAllSpace,
            WhitespaceMode::IgnoreAllSpace => WhitespaceMode::Normal,
        }
    }

    pub fn is_normal(self) -> (r: bool)
        ensures
            r == (self == WhitespaceMode::Normal),
    {
        match self {
            WhitespaceMode::Normal => true,
            _ => false,
        }
    }
}

/// Cycling three times returns to the starting mode.
pub proof fn whitespace_cycle_returns(m: WhitespaceMode)
    ensures
        m.spec_next().spec_next().spec_next() == m,
        m.spec_next() != m,
{
}

// ---------------------------------------------------------------------------
// The model
// ---------------------------------------------------------------------------

/// Position of the first newline at or after `start` (or the end).
pub open spec fn next_newline(b: Seq<u8>, start: int) -> int
    decreases b.len() - start,
{
    if start < 0 || start >= b.len() {
        b.len() as int
    } else if b[start] == 10u8 {
        start
    } else {
        next_newline(b, start + 1)
    }
}

pub proof fn lemma_next_newline_bounds(b: Seq<u8>, start: int)
    requires
        0 <= start <= b.len(),
    ensures
        start <= next_newline(b, start) <= b.len(),
        next_newline(b, start) < b.len() ==> b[next_newline(b, start)] == 10u8,
    decreases b.len() - start,
{
    if start < b.len() && b[start] != 10u8 {
        lemma_next_newline_bounds(b, start + 1);
    }
}

/// The `[start, end)` byte ranges of the lines from `start` on; each
/// line ends before its newline, and a final newline starts no line.
pub open spec fn line_ranges_from(b: Seq<u8>, start: int) -> Seq<(int, int)>
    decreases b.len() + 1 - start,
{
    if start < 0 || start >= b.len() {
        Seq::empty()
    } else {
        proof {
            lemma_next_newline_bounds(b, start);
        }
        let e = next_newline(b, start);
        if e < start {
            Seq::empty()
        } else {
            seq![(start, e)] + line_ranges_from(b, e + 1)
        }
    }
}

/// The line ranges of the whole patch.
pub open spec fn line_ranges(b: Seq<u8>) -> Seq<(int, int)> {
    line_ranges_from(b, 0)
}

/// End of the displayed part of a line: a carriage return before the
/// newline is not shown.
pub open spec fn display_end(b: Seq<u8>, r: (int, int)) -> int {
    if r.1 > r.0 && b[r.1 - 1] == 13u8 {
        r.1 - 1
    } else {
        r.1
    }
}

/// Text of the line with range `r`.
pub open spec fn line_text(b: Seq<u8>, r: (int, int)) -> Seq<char> {
    lossy_chars(b.subrange(r.0, display_end(b, r)))
}

/// Kind of a line given its text.
pub open spec fn classify(t: Seq<char>) -> DiffKind {
    if starts_with(t, "@@"@) {
        DiffKind::Hunk
    } else if starts_with(t, "diff --git"@) || starts_with(t, "+++"@) || starts_with(t, "---"@) {
        DiffKind::Header
    } else if starts_with(t, "Binary files"@) {
        DiffKind::Metadata
    } else if starts_with(t, "+"@) {
        DiffKind::Add
    } else if starts_with(t, "-"@) {
        DiffKind::Delete
    } else if starts_with(t, " "@) {
        DiffKind::Context
    } else {
        DiffKind::Metadata
    }
}

/// Kind of line `k`.
pub open spec fn kind_at(b: Seq<u8>, k: int) -> DiffKind {
    classify(line_text(b, line_ranges(b)[k]))
}

/// Indices of the hunk header lines among the first `n` lines.
pub open spec fn hunk_indices(b: Seq<u8>, n: int) -> Seq<int>
    decreases n,
{
    if n <= 0 {
        Seq::empty()
    } else {
        let pre = hunk_indices(b, n - 1);
        if kind_at(b, n - 1) == DiffKind::Hunk {
            pre.push(n - 1)
        } else {
            pre
        }
    }
}

/// Number of lines of kind `k` among the first `n` lines.
pub open spec fn count_kind(b: Seq<u8>, n: int, k: DiffKind) -> int
    decreases n,
{
    if n <= 0 {
        0
    } else {
        count_kind(b, n - 1, k) + if kind_at(b, n - 1) == k {
            1int
        } else {
            0
        }
    }
}

pub struct DiffLineView {
    pub kind: DiffKind,
    pub text: Seq<char>,
}

pub struct DiffHunkView {
    pub start_line: usize,
    pub header: Seq<char>,
    pub raw_start: usize,
    pub raw_end: usize,
}

impl View for DiffLine {
    type V = DiffLineView;

    open spec fn view(&self) -> DiffLineView {
        DiffLineView { kind: self.kind, text: self.text@ }
    }
}

impl View for DiffHunk {
    type V = DiffHunkView;

    open spec fn view(&self) -> DiffHunkView {
        DiffHunkView {
            start_line: self.start_line,
            header: self.header@,
            raw_start: self.raw_start,
            raw_end: self.raw_end,
        }
    }
}

/// Text shown when the patch has no lines.
pub open spec fn empty_diff_text() -> Seq<char> {
    "No diff available for this selection."@
}

/// The lines of a diff parsed from `b`: one per line of the patch, each with
/// its classified kind, or a single metadata line for an empty patch.
pub open spec fn lines_match(b: Seq<u8>, lines: Seq<DiffLine>) -> bool {
    let rs = line_ranges(b);
    if rs.len() == 0 {
        lines.len() == 1 && lines[0]@ == (DiffLineView { kind: DiffKind::Metadata, text: empty_diff_text() })
    } else {
        &&& lines.len() == rs.len()
        &&& forall|k: int|
            0 <= k < rs.len() ==> (#[trigger] lines[k])@ == (DiffLineView {
                kind: kind_at(b, k),
                text: line_text(b, rs[k]),
            })
    }
}

/// The hunks of a diff parsed from `b`: one per hunk header line, covering
/// the bytes from its header to the next header (or the end).
pub open spec fn hunks_match(b: Seq<u8>, hunks: Seq<DiffHunk>) -> bool {
    let rs = line_ranges(b);
    let h = hunk_indices(b, rs.len() as int);
    &&& hunks.len() == h.len()
    &&& forall|j: int|
        0 <= j < h.len() ==> {
            &&& (#[trigger] hunks[j]).start_line == h[j]
            &&& hunks[j].header@ == line_text(b, rs[h[j]])
            &&& hunks[j].raw_start == rs[h[j]].0
            &&& hunks[j].raw_end == if j + 1 < h.len() {
                rs[h[j + 1]].0
            } else {
                b.len() as int
            }
        }
}

/// `b` has a `Binary files ...` line.
pub open spec fn has_binary_line(b: Seq<u8>) -> bool {
    let rs = line_ranges(b);
    exists|k: int| 0 <= k < rs.len() && starts_with(line_text(b, #[trigger] rs[k]), "Binary files"@)
}

impl Diff {
    /// The hunk ranges lie inside the raw patch.
    pub open spec fn wf(&self) -> bool {
        forall|j: int|
            0 <= j < self.hunks.len() ==> (#[trigger] self.hunks[j]).raw_start <= self.hunks[j].raw_end
                <= self.raw_patch.len()
    }

    /// The patch that applies only hunk `index`: the file header (everything
    /// before the first hunk) followed by that hunk's bytes.
    pub open spec fn spec_hunk_patch(&self, index: int) -> Option<Seq<u8>> {
        if 0 <= index < self.hunks.len() {
            let h = self.hunks[index];
            Some(
                self.raw_patch@.subrange(0, self.hunks[0].raw_start as int) + self.raw_patch@.subrange(
                    h.raw_start as int,
                    h.raw_end as int,
                ),
            )
        } else {
            None
        }
    }

    pub fn selected_hunk_patch(&self, index: usize) -> (r: Option<Vec<u8>>)
        requires
            self.wf(),
        ensures
            match self.spec_hunk_patch(index as int) {
                Some(p) => r matches Some(v) && v@ == p,
                None => r is None,
            },
    {
        if index >= self.hunks.len() {
            return None;
        }
        let first = self.hunks[0].raw_start;
        let hunk = &self.hunks[index];
        let mut patch = bytes_range(self.raw_patch.as_slice(), 0, first);
        let mut i = hunk.raw_start;
        let ghost head = patch@;
        while i < hunk.raw_end
            invariant
                hunk.raw_start <= i <= hunk.raw_end <= self.raw_patch.len(),
                patch@ == head + self.raw_patch@.subrange(hunk.raw_start as int, i as int),
            decreases hunk.raw_end - i,
        {
            patch.push(self.raw_patch[i]);
            assert(self.raw_patch@.subrange(hunk.raw_start as int, i + 1) =~= self.raw_patch@.subrange(
                hunk.raw_start as int,
                i as int,
            ).push(self.raw_patch@[i as int]));
            i += 1;
        }
        Some(patch)
    }
}

/// The patch of hunk `i` is the file header (the bytes before the first
/// hunk) followed by exactly the bytes of hunk `i`: its length is the
/// header's length plus that hunk's, so no byte of another hunk is in it.
pub proof fn lemma_hunk_patch_is_header_and_hunk(d: Diff, i: int)
    requires
        d.wf(),
        0 <= i < d.hunks.len(),
    ensures
        d.spec_hunk_patch(i) == Some(
            d.raw_patch@.take(d.hunks[0].raw_start as int) + d.raw_patch@.subrange(
                d.hunks[i].raw_start as int,
                d.hunks[i].raw_end as int,
            ),
        ),
        d.spec_hunk_patch(i)->0.len() == d.hunks[0].raw_start + d.hunks[i].raw_end - d.hunks[i].raw_start,
        d.spec_hunk_patch(i)->0.skip(d.hunks[0].raw_start as int) == d.raw_patch@.subrange(
            d.hunks[i].raw_start as int,
            d.hunks[i].raw_end as int,
        ),
{
    let h0 = d.hunks[0];
    let h = d.hunks[i];
    assert(h0.raw_start <= h0.raw_end <= d.raw_patch.len());
    assert(h.raw_start <= h.raw_end <= d.raw_patch.len());
    assert(d.raw_patch@.subrange(0, h0.raw_start as int) =~= d.raw_patch@.take(h0.raw_start as int));
    let p = d.spec_hunk_patch(i)->0;
    assert(p.skip(h0.raw_start as int) =~= d.raw_patch@.subrange(h.raw_start as int, h.raw_end as int));
}

proof fn lemma_hunk_indices(b: Seq<u8>, n: int)
    ensures
        forall|i: int|
            0 <= i < hunk_indices(b, n).len() ==> 0 <= #[trigger] hunk_indices(b, n)[i] < n && kind_at(
                b,
                hunk_indices(b, n)[i],
            ) == DiffKind::Hunk,
        forall|i: int, j: int|
            0 <= i < j < hunk_indices(b, n).len() ==> #[trigger] hunk_indices(b, n)[i] < #[trigger] hunk_indices(
                b,
                n,
            )[j],
    decreases n,
{
    if n > 0 {
        lemma_hunk_indices(b, n - 1);
    }
}

/// The hunks of a parsed diff follow one another: each begins at an `@@`
/// header line that comes after the one before, each ends where the next
/// begins, and the last ends with the patch.
pub proof fn lemma_hunks_follow_each_other(b: Seq<u8>, hunks: Seq<DiffHunk>)
    requires
        hunks_match(b, hunks),
    ensures
        forall|j: int| 0 <= j < hunks.len() ==> starts_with((#[trigger] hunks[j]).header@, "@@"@),
        forall|j: int|
            0 <= j < hunks.len() - 1 ==> (#[trigger] hunks[j]).raw_end == hunks[j + 1].raw_start
                && hunks[j].start_line < hunks[j + 1].start_line,
        hunks.len() > 0 ==> hunks.last().raw_end == b.len(),
{
    let rs = line_ranges(b);
    let h = hunk_indices(b, rs.len() as int);
    lemma_hunk_indices(b, rs.len() as int);
    assert forall|j: int| 0 <= j < hunks.len() implies starts_with((#[trigger] hunks[j]).header@, "@@"@) by {
        assert(kind_at(b, h[j]) == DiffKind::Hunk);
        assert(hunks[j].header@ == line_text(b, rs[h[j]]));
    }
    assert forall|j: int| 0 <= j < hunks.len() - 1 implies (#[trigger] hunks[j]).raw_end == hunks[j + 1].raw_start
        && hunks[j].start_line < hunks[j + 1].start_line by {
        assert(h[j] < h[j + 1]);
        assert(hunks[j + 1].start_line == h[j + 1]);
    }
    if hunks.len() > 0 {
        assert(hunks.last() == hunks[hunks.len() - 1]);
    }
}

proof fn lemma_line_ranges_from_step(b: Seq<u8>, start: int)
    requires
        0 <= start < b.len(),
    ensures
        line_ranges_from(b, start) == seq![(start, next_newline(b, start))] + line_ranges_from(
            b,
            next_newline(b, start) + 1,
        ),
{
    lemma_next_newline_bounds(b, start);
}

proof fn lemma_hunk_indices_bounds(b: Seq<u8>, n: int)
    requires
        n >= 0,
    ensures
        forall|j: int| 0 <= j < hunk_indices(b, n).len() ==> 0 <= #[trigger] hunk_indices(b, n)[j] < n,
        forall|i: int, j: int| 0 <= i < j < hunk_indices(b, n).len() ==> hunk_indices(b, n)[i] < hunk_indices(b, n)[j],
        hunk_indices(b, n).len() <= n,
    decreases n,
{
    if n > 0 {
        lemma_hunk_indices_bounds(b, n - 1);
    }
}

fn classify_text(t: &[char], marks: &DiffMarks) -> (k: DiffKind)
    requires
        marks.wf(),
    ensures
        k == classify(t@),
{
    let n = t.len();
    if chars_starts_with(t, 0, n, &marks.hunk) {
        assert(t@.subrange(0, n as int) =~= t@);
        DiffKind::Hunk
    } else if chars_starts_with(t, 0, n, &marks.diff_git) || chars_starts_with(t, 0, n, &marks.plus3)
        || chars_starts_with(t, 0, n, &marks.minus3) {
        assert(t@.subrange(0, n as int) =~= t@);
        DiffKind::Header
    } else if chars_starts_with(t, 0, n, &marks.binary) {
        assert(t@.subrange(0, n as int) =~= t@);
        DiffKind::Metadata
    } else if chars_starts_with(t, 0, n, &marks.plus) {
        assert(t@.subrange(0, n as int) =~= t@);
        DiffKind::Add
    } else if chars_starts_with(t, 0, n, &marks.minus) {
        assert(t@.subrange(0, n as int) =~= t@);
        DiffKind::Delete
    } else if chars_starts_with(t, 0, n, &marks.space) {
        assert(t@.subrange(0, n as int) =~= t@);
        DiffKind::Context
    } else {
        assert(t@.subrange(0, n as int) =~= t@);
        DiffKind::Metadata
    }
}

/// The line prefixes that classify diff lines.
struct DiffMarks {
    hunk: Vec<char>,
    diff_git: Vec<char>,
    plus3: Vec<char>,
    minus3: Vec<char>,
    binary: Vec<char>,
    plus: Vec<char>,
    minus: Vec<char>,
    space: Vec<char>,
}

impl DiffMarks {
    spec fn wf(&self) -> bool {
        &&& self.hunk@ == "@@"@
        &&& self.diff_git@ == "diff --git"@
        &&& self.plus3@ == "+++"@
        &&& self.minus3@ == "---"@
        &&& self.binary@ == "Binary files"@
        &&& self.plus@ == "+"@
        &&& self.minus@ == "-"@
        &&& self.space@ == " "@
    }

    fn new() -> (m: DiffMarks)
        ensures
            m.wf(),
    {
        DiffMarks {
            hunk: chars_of("@@"),
            diff_git: chars_of("diff --git"),
            plus3: chars_of("+++"),
            minus3: chars_of("---"),
            binary: chars_of("Binary files"),
            plus: chars_of("+"),
            minus: chars_of("-"),
            space: chars_of(" "),
        }
    }
}

/// `d` is what `parse_diff(target, bytes, context_lines, whitespace)`
/// builds: the raw patch, its classified lines, its hunks and counts.
pub open spec fn parsed_from(
    d: Diff,
    target: DiffTarget,
    bytes: Seq<u8>,
    context_lines: u8,
    whitespace: WhitespaceMode,
) -> bool {
    &&& d.target == target
    &&& d.context_lines == context_lines
    &&& d.whitespace == whitespace
    &&& d.raw_patch@ == bytes
    &&& lines_match(bytes, d.lines@)
    &&& hunks_match(bytes, d.hunks@)
    &&& d.is_binary == has_binary_line(bytes)
    &&& d.additions == count_kind(bytes, line_ranges(bytes).len() as int, DiffKind::Add)
    &&& d.deletions == count_kind(bytes, line_ranges(bytes).len() as int, DiffKind::Delete)
    &&& d.wf()
}

/// Parses a unified diff.
pub fn parse_diff(target: DiffTarget, bytes: &[u8], context_lines: u8, whitespace: WhitespaceMode) -> (d: Diff)
    ensures
        d.target == target,
        d.context_lines == context_lines,
        d.whitespace == whitespace,
        d.raw_patch@ == bytes@,
        lines_match(bytes@, d.lines@),
        hunks_match(bytes@, d.hunks@),
        d.is_binary == has_binary_line(bytes@),
        d.additions == count_kind(bytes@, line_ranges(bytes@).len() as int, DiffKind::Add),
        d.deletions == count_kind(bytes@, line_ranges(bytes@).len() as int, DiffKind::Delete),
        d.wf(),
{
    let ghost b = bytes@;
    let ghost rs = line_ranges(b);
    let marks = DiffMarks::new();
    let mut lines: Vec<DiffLine> = Vec::new();
    let mut hunks: Vec<DiffHunk> = Vec::new();
    let mut is_binary = false;
    let mut additions: usize = 0;
    let mut deletions: usize = 0;
    let mut offset: usize = 0;
    let ghost mut done: Seq<(int, int)> = Seq::empty();
    while offset < bytes.len()
        invariant
            b == bytes@,
            rs == line_ranges(b),
            marks.wf(),
            offset <= bytes.len(),
            done + line_ranges_from(b, offset as int) == rs,
            lines.len() == done.len(),
            lines.len() <= offset,
            forall|k: int|
                0 <= k < lines.len() ==> (#[trigger] lines@[k])@ == (DiffLineView {
                    kind: classify(line_text(b, done[k])),
                    text: line_text(b, done[k]),
                }),
            forall|k: int| 0 <= k < done.len() ==> (#[trigger] done[k]).1 < offset || (done[k].1 == offset && offset == bytes.len()),
            forall|k: int| 0 <= k < done.len() ==> 0 <= (#[trigger] done[k]).0 <= done[k].1,
            hunks.len() == hunk_indices(b, lines.len() as int).len(),
            forall|j: int|
                0 <= j < hunks.len() ==> {
                    let h = hunk_indices(b, lines.len() as int);
                    &&& (#[trigger] hunks@[j]).start_line == h[j]
                    &&& hunks@[j].header@ == line_text(b, done[h[j]])
                    &&& hunks@[j].raw_start == done[h[j]].0
                    &&& hunks@[j].raw_end == if j + 1 < h.len() {
                        done[h[j + 1]].0
                    } else {
                        b.len() as int
                    }
                },
            is_binary == exists|k: int| 0 <= k < done.len() && starts_with(line_text(b, #[trigger] done[k]), "Binary files"@),
            additions == count_kind(b, lines.len() as int, DiffKind::Add),
            deletions == count_kind(b, lines.len() as int, DiffKind::Delete),
            additions <= lines.len(),
            deletions <= lines.len(),
            forall|j: int|
                0 <= j < hunks.len() ==> (#[trigger] hunks@[j]).raw_start <= hunks@[j].raw_end <= bytes.len()
                    && hunks@[j].raw_start <= offset,
            forall|k: int| 0 <= k < done.len() ==> done[k] == rs[k],
        decreases bytes.len() - offset,
    {
        let line_start = offset;
        let mut line_end = offset;
        while line_end < bytes.len() && bytes[line_end] != 10u8
            invariant
                line_start <= line_end <= bytes.len(),
                line_start < bytes.len(),
                b == bytes@,
                next_newline(b, line_start as int) == next_newline(b, line_end as int),
            decreases bytes.len() - line_end,
        {
            line_end += 1;
        }
        proof {
            lemma_line_ranges_from_step(b, line_start as int);
            assert(next_newline(b, line_end as int) == line_end as int);
        }
        offset = if line_end < bytes.len() { line_end + 1 } else { line_end };
        let mut shown_end = line_end;
        if shown_end > line_start && bytes[shown_end - 1] == 13u8 {
            shown_end -= 1;
        }
        let ghost r: (int, int) = (line_start as int, line_end as int);
        let text_s = lossy_text(&bytes[line_start..shown_end]);
        let text = chars_of(text_s.as_str());
        let kind = classify_text(&text, &marks);
        let ghost old_lines = lines@;
        let ghost old_done = done;
        let ghost old_hunks = hunks@;
        let ghost n = lines.len() as int;
        proof {
            assert(display_end(b, r) == shown_end as int);
            assert(line_text(b, r) == text@);
            done = done.push(r);
            assert(done + line_ranges_from(b, offset as int) =~= old_done + (seq![r] + line_ranges_from(
                b,
                offset as int,
            )));
            assert(done[n] == rs[n]);
            assert(kind_at(b, n) == kind);
        }
        match kind {
            DiffKind::Hunk => {
                let hl = hunks.len();
                if hl > 0 {
                    let mut prev = hunks.pop().unwrap();
                    prev.raw_end = line_start;
                    hunks.push(prev);
                }
                hunks.push(
                    DiffHunk {
                        start_line: lines.len(),
                        header: copy_str(text_s.as_str()),
                        raw_start: line_start,
                        raw_end: bytes.len(),
                    },
                );
            },
            DiffKind::Add => {
                additions += 1;
            },
            DiffKind::Delete => {
                deletions += 1;
            },
            _ => {},
        }
        let t2 = copy_str(text_s.as_str());
        if chars_starts_with(&text, 0, text.len(), &marks.binary) {
            is_binary = true;
        }
        proof {
            assert(text@.subrange(0, text@.len() as int) =~= text@);
        }
        lines.push(DiffLine { kind, text: t2 });
        proof {
            let h_old = hunk_indices(b, n);
            let h_new = hunk_indices(b, n + 1);
            lemma_hunk_indices_bounds(b, n);
            lemma_hunk_indices_bounds(b, n + 1);
            assert forall|j: int| 0 <= j < h_old.len() implies 0 <= #[trigger] h_old[j] < n by {}
            if kind == DiffKind::Hunk {
                assert(h_new == h_old.push(n));
            } else {
                assert(h_new == h_old);
            }
            assert forall|k: int| 0 <= k < lines.len() implies (#[trigger] lines@[k])@ == (DiffLineView {
                kind: classify(line_text(b, done[k])),
                text: line_text(b, done[k]),
            }) by {
                if k < n {
                    assert(lines@[k] == old_lines[k]);
                    assert(done[k] == old_done[k]);
                }
            }
            assert forall|j: int|
                0 <= j < hunks.len() implies {
                    &&& (#[trigger] hunks@[j]).start_line == h_new[j]
                    &&& hunks@[j].header@ == line_text(b, done[h_new[j]])
                    &&& hunks@[j].raw_start == done[h_new[j]].0
                    &&& hunks@[j].raw_end == if j + 1 < h_new.len() {
                        done[h_new[j + 1]].0
                    } else {
                        b.len() as int
                    }
                } by {
                if j < h_old.len() {
                    assert(h_new[j] == h_old[j]);
                    assert(done[h_old[j]] == old_done[h_old[j]]);
                    if j + 1 < h_old.len() {
                        assert(h_new[j + 1] == h_old[j + 1]);
                        assert(done[h_old[j + 1]] == old_done[h_old[j + 1]]);
                        assert(hunks@[j] == old_hunks[j]);
                    } else if kind == DiffKind::Hunk {
                        assert(h_new[j + 1] == n);
                    } else {
                        assert(hunks@[j] == old_hunks[j]);
                    }
                }
            }
            assert((exists|k: int| 0 <= k < done.len() && starts_with(line_text(b, #[trigger] done[k]), "Binary files"@))
                == (is_binary)) by {
                if starts_with(text@, "Binary files"@) {
                    assert(starts_with(line_text(b, done[n]), "Binary files"@));
                } else {
                    if exists|k: int| 0 <= k < done.len() && starts_with(line_text(b, #[trigger] done[k]), "Binary files"@) {
                        let k = choose|k: int| 0 <= k < done.len() && starts_with(line_text(b, #[trigger] done[k]), "Binary files"@);
                        if k < n {
                            assert(done[k] == old_done[k]);
                        }
                    }
                }
            }
            assert forall|k: int| 0 <= k < done.len() implies (#[trigger] done[k]) == rs[k] by {
                if k < n {
                    assert(done[k] == old_done[k]);
                }
            }
        }
    }
    proof {
        assert(done =~= rs);
    }
    if lines.len() == 0 {
        lines.push(DiffLine { kind: DiffKind::Metadata, text: copy_str("No diff available for this selection.") });
    }
    Diff {
        target,
        context_lines,
        whitespace,
        lines,
        hunks,
        is_binary,
        additions,
        deletions,
        raw_patch: bytes_range(bytes, 0, bytes.len()),
    }
}

} // verus!
