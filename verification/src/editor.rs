//! Commit messages and the external editor: the editor's command line, the
//! draft handed to it and the summary and body read back.
use crate::text::{
    chars_of, copy_str, is_whitespace, is_ws, join, lemma_join_prepend, lemma_join_push_last,
    lemma_split_around, lemma_split_nonempty, lemma_split_single, line_spans, lines, push_char,
    push_chars, push_str, spans_describe, split, string_of, strip_cr, trim, trim_end, trim_range,
    trim_start,
};
use vstd::prelude::*;

verus! {

// ---------------------------------------------------------------------------
// Editor command lines
// ---------------------------------------------------------------------------

/// Where splitting a command line into words has got to.
pub struct WordSplit {
    pub words: Seq<Seq<char>>,
    pub current: Seq<char>,
    pub quote: Option<char>,
    pub escaped: bool,
}

/// Reading one more character: a backslash escapes the next character,
/// quotes group words, whitespace outside quotes ends a word.
pub open spec fn word_step(st: WordSplit, ch: char) -> WordSplit {
    if st.escaped {
        WordSplit { current: st.current.push(ch), escaped: false, ..st }
    } else if ch == '\\' {
        WordSplit { escaped: true, ..st }
    } else if st.quote is Some {
        if ch == st.quote->0 {
            WordSplit { quote: None, ..st }
        } else {
            WordSplit { current: st.current.push(ch), ..st }
        }
    } else if ch == '"' || ch == '\'' {
        WordSplit { quote: Some(ch), ..st }
    } else if is_ws(ch) {
        if st.current.len() > 0 {
            WordSplit { words: st.words.push(st.current), current: Seq::empty(), ..st }
        } else {
            st
        }
    } else {
        WordSplit { current: st.current.push(ch), ..st }
    }
}

/// The state after reading all of `s`.
pub open spec fn word_scan(s: Seq<char>) -> WordSplit
    decreases s.len(),
{
    if s.len() == 0 {
        WordSplit { words: Seq::empty(), current: Seq::empty(), quote: None, escaped: false }
    } else {
        word_step(word_scan(s.drop_last()), s.last())
    }
}

/// The words of a command line, or `None` when a quote is left open or
/// there is no word. A trailing backslash stands for itself.
pub open spec fn command_words(s: Seq<char>) -> Option<Seq<Seq<char>>> {
    let st = word_scan(s);
    let current = if st.escaped {
        st.current.push('\\')
    } else {
        st.current
    };
    if st.quote is Some {
        None
    } else {
        let words = if current.len() > 0 {
            st.words.push(current)
        } else {
            st.words
        };
        if words.len() == 0 {
            None
        } else {
            Some(words)
        }
    }
}

pub open spec fn strings_view(v: Seq<String>) -> Seq<Seq<char>> {
    v.map_values(|s: String| s@)
}

/// Splits an editor setting such as `code --wait` into the program and its
/// arguments, honouring quotes and backslashes, without a shell.
pub fn split_command_words(value: &str) -> (r: Option<(String, Vec<String>)>)
    ensures
        match command_words(value@) {
            None => r is None,
            Some(ws) => r matches Some(p) && p.0@ == ws[0] && strings_view(p.1@) == ws.drop_first(),
        },
{
    let t = chars_of(value);
    let mut words: Vec<Vec<char>> = Vec::new();
    let mut current: Vec<char> = Vec::new();
    let mut quote: Option<char> = None;
    let mut escaped = false;
    let mut i: usize = 0;
    assert(t@.take(0) =~= Seq::<char>::empty());
    assert(words@.map_values(|w: Vec<char>| w@) =~= Seq::<Seq<char>>::empty());
    while i < t.len()
        invariant
            t@ == value@,
            i <= t.len(),
            word_scan(t@.take(i as int)) == (WordSplit {
                words: words@.map_values(|w: Vec<char>| w@),
                current: current@,
                quote,
                escaped,
            }),
        decreases t.len() - i,
    {
        let ch = t[i];
        proof {
            assert(t@.take(i + 1).drop_last() =~= t@.take(i as int));
            assert(t@.take(i + 1).last() == ch);
        }
        let ghost before = words@.map_values(|w: Vec<char>| w@);
        if escaped {
            current.push(ch);
            escaped = false;
        } else if ch == '\\' {
            escaped = true;
        } else if let Some(q) = quote {
            if ch == q {
                quote = None;
            } else {
                current.push(ch);
            }
        } else if ch == '"' || ch == '\'' {
            quote = Some(ch);
        } else if is_whitespace(ch) {
            if current.len() > 0 {
                let w = current;
                current = Vec::new();
                words.push(w);
                assert(words@.map_values(|w: Vec<char>| w@) =~= before.push(words@.last()@));
            }
        } else {
            current.push(ch);
        }
        i += 1;
    }
    assert(t@.take(t.len() as int) =~= t@);
    if escaped {
        current.push('\\');
    }
    if quote.is_some() {
        return None;
    }
    if current.len() > 0 {
        let ghost before = words@.map_values(|w: Vec<char>| w@);
        words.push(current);
        assert(words@.map_values(|w: Vec<char>| w@) =~= before.push(words@.last()@));
    }
    if words.len() == 0 {
        return None;
    }
    let command = string_of(&words[0]);
    let mut args: Vec<String> = Vec::new();
    let mut k: usize = 1;
    let ghost ws = words@.map_values(|w: Vec<char>| w@);
    while k < words.len()
        invariant
            1 <= k <= words.len(),
            ws == words@.map_values(|w: Vec<char>| w@),
            strings_view(args@) == ws.subrange(1, k as int),
        decreases words.len() - k,
    {
        let ghost before = strings_view(args@);
        args.push(string_of(&words[k]));
        assert(strings_view(args@) =~= before.push(ws[k as int]));
        assert(ws.subrange(1, k + 1) =~= ws.subrange(1, k as int).push(ws[k as int]));
        k += 1;
    }
    assert(ws.subrange(1, words.len() as int) =~= ws.drop_first());
    Some((command, args))
}

// ---------------------------------------------------------------------------
// Commit messages
// ---------------------------------------------------------------------------

/// The editor to run: the first setting (of `GIT_EDITOR`, `VISUAL` and
/// `EDITOR`, in that order, where set) whose command line has words, else
/// `vi`.
pub open spec fn editor_spec(settings: Seq<Option<Seq<char>>>) -> (Seq<char>, Seq<Seq<char>>)
    decreases settings.len(),
{
    if settings.len() == 0 {
        ("vi"@, Seq::empty())
    } else {
        match settings[0] {
            Some(v) => match command_words(v) {
                Some(ws) => (ws[0], ws.drop_first()),
                None => editor_spec(settings.drop_first()),
            },
            None => editor_spec(settings.drop_first()),
        }
    }
}

pub open spec fn settings_view(v: Seq<Option<String>>) -> Seq<Option<Seq<char>>> {
    v.map_values(|o: Option<String>| match o {
        Some(s) => Some(s@),
        None => None,
    })
}

pub fn editor_command(settings: &[Option<String>]) -> (r: (String, Vec<String>))
    ensures
        r.0@ == editor_spec(settings_view(settings@)).0,
        strings_view(r.1@) == editor_spec(settings_view(settings@)).1,
{
    let ghost sv = settings_view(settings@);
    let mut i: usize = 0;
    proof {
        assert(sv.skip(0) =~= sv);
    }
    while i < settings.len()
        invariant
            i <= settings.len(),
            sv == settings_view(settings@),
            editor_spec(sv) == editor_spec(sv.skip(i as int)),
        decreases settings.len() - i,
    {
        proof {
            assert(sv.skip(i as int)[0] == sv[i as int]);
            assert(sv.skip(i as int).drop_first() =~= sv.skip(i + 1));
        }
        if let Some(v) = &settings[i] {
            if let Some(parts) = split_command_words(v.as_str()) {
                return parts;
            }
        }
        i += 1;
    }
    proof {
        assert(sv.skip(settings.len() as int) =~= Seq::<Option<Seq<char>>>::empty());
    }
    (copy_str("vi"), Vec::new())
}

/// `s` without its trailing carriage returns and line feeds.
pub open spec fn trim_line_ends(s: Seq<char>) -> Seq<char>
    decreases s.len(),
{
    if s.len() > 0 && (s.last() == '\r' || s.last() == '\n') {
        trim_line_ends(s.drop_last())
    } else {
        s
    }
}

/// The summary and body that an edited commit message file holds: its
/// first line without trailing whitespace, and the other lines joined and
/// trimmed.
pub open spec fn commit_message_parts(text: Seq<char>) -> (Seq<char>, Seq<char>) {
    let ls = lines(trim_line_ends(text));
    let summary = if ls.len() > 0 {
        trim_end(ls[0])
    } else {
        Seq::empty()
    };
    let body = if ls.len() > 1 {
        trim(join(ls.skip(1), "\n"@))
    } else {
        Seq::empty()
    };
    (summary, body)
}

/// Splits an edited commit message into summary and body.
pub fn split_commit_message(text: &str) -> (r: (String, String))
    ensures
        r.0@ == commit_message_parts(text@).0,
        r.1@ == commit_message_parts(text@).1,
{
    let all = chars_of(text);
    let mut end = all.len();
    assert(all@.take(all.len() as int) =~= all@);
    while end > 0 && (all[end - 1] == '\r' || all[end - 1] == '\n')
        invariant
            end <= all.len(),
            trim_line_ends(all@.take(end as int)) == trim_line_ends(all@),
        decreases end,
    {
        assert(all@.take(end as int).drop_last() =~= all@.take(end - 1));
        end -= 1;
    }
    proof {
        assert(all@.take(all.len() as int) =~= all@);
    }
    let t = crate::text::chars_range(&all, 0, end);
    assert(t@ == trim_line_ends(all@)) by {
        assert(all@.subrange(0, end as int) =~= all@.take(end as int));
    }
    let spans = line_spans(&t);
    let ghost ls = lines(t@);
    let summary = if spans.len() > 0 {
        let (a, b) = spans[0];
        let first = crate::text::chars_range(&t, a, b);
        trim_end_chars(&first)
    } else {
        String::new()
    };
    let mut rest: Vec<char> = Vec::new();
    let mut k: usize = 1;
    let ghost tail = ls.skip(1);
    if spans.len() > 1 {
        let (a, b) = spans[1];
        let piece = crate::text::chars_range(&t, a, b);
        append_all(&mut rest, &piece);
        k = 2;
        proof {
            assert(tail.take(1) =~= seq![ls[1]]);
        }
    }
    while k < spans.len()
        invariant
            spans_describe(t@, spans@, ls),
            tail == ls.skip(1),
            spans.len() > 1 ==> 2 <= k <= spans.len(),
            spans.len() <= 1 ==> k == 1,
            spans.len() > 1 ==> rest@ == join(tail.take(k - 1), "\n"@),
            spans.len() <= 1 ==> rest@.len() == 0,
        decreases spans.len() - k,
    {
        let (a, b) = spans[k];
        rest.push('\n');
        let piece = crate::text::chars_range(&t, a, b);
        append_all(&mut rest, &piece);
        proof {
            reveal_strlit("\n");
            let nxt = tail.take(k as int);
            assert(nxt.drop_last() =~= tail.take(k - 1));
            assert(nxt.last() == ls[k as int]);
            assert(nxt.len() >= 2);
            assert(join(nxt, "\n"@) == join(nxt.drop_last(), "\n"@) + "\n"@ + nxt.last());
        }
        k += 1;
    }
    proof {
        if spans.len() > 1 {
            assert(tail.take(spans.len() - 1) =~= tail);
        }
    }
    let (ra, rb) = trim_range(&rest, 0, rest.len());
    assert(rest@.subrange(0, rest@.len() as int) =~= rest@);
    let body = crate::text::string_of_range(&rest, ra, rb);
    (summary, body)
}

/// Appends all of `src` to `out`.
fn append_all(out: &mut Vec<char>, src: &[char])
    ensures
        final(out)@ == old(out)@ + src@,
{
    let mut i: usize = 0;
    while i < src.len()
        invariant
            i <= src.len(),
            out@ == old(out)@ + src@.take(i as int),
        decreases src.len() - i,
    {
        out.push(src[i]);
        assert(src@.take(i + 1) =~= src@.take(i as int).push(src@[i as int]));
        i += 1;
    }
    assert(src@.take(src.len() as int) =~= src@);
}

/// `s` without trailing whitespace, as a string.
fn trim_end_chars(s: &[char]) -> (r: String)
    ensures
        r@ == trim_end(s@),
{
    let mut end = s.len();
    assert(s@.take(s.len() as int) =~= s@);
    while end > 0 && is_whitespace(s[end - 1])
        invariant
            end <= s.len(),
            trim_end(s@.take(end as int)) == trim_end(s@),
        decreases end,
    {
        assert(s@.take(end as int).drop_last() =~= s@.take(end - 1));
        end -= 1;
    }
    proof {
        assert(s@.take(s.len() as int) =~= s@);
        assert(trim_end(s@.take(end as int)) == s@.take(end as int));
    }
    crate::text::string_of_range(s, 0, end)
}

/// The text handed to the editor for a commit message: the summary, a
/// blank line and the body when there is one, and a final newline.
pub open spec fn draft_spec(summary: Seq<char>, body: Seq<char>) -> Seq<char> {
    if body.len() == 0 {
        summary.push('\n')
    } else if summary.len() == 0 {
        body.push('\n')
    } else {
        (summary + "\n\n"@ + body).push('\n')
    }
}

/// No carriage return of `s` stands directly before a line feed.
pub open spec fn no_crlf(s: Seq<char>) -> bool {
    forall|i: int| 0 <= i < s.len() - 1 ==> !(#[trigger] s[i] == '\r' && s[i + 1] == '\n')
}

/// The pieces as `lines` keeps them: each but the last without a final
/// carriage return.
pub open spec fn stripped(ps: Seq<Seq<char>>) -> Seq<Seq<char>> {
    Seq::new(
        ps.len(),
        |i: int|
            if i < ps.len() - 1 {
                strip_cr(ps[i])
            } else {
                ps[i]
            },
    )
}

proof fn lemma_last_piece(s: Seq<char>)
    requires
        s.len() > 0,
    ensures
        s.last() == '\n' ==> split(s, '\n').last() == Seq::<char>::empty(),
        s.last() != '\n' ==> split(s, '\n').last().len() > 0 && split(s, '\n').last().last() == s.last(),
{
    lemma_split_nonempty(s.drop_last(), '\n');
}

proof fn lemma_join_pieces(s: Seq<char>)
    requires
        no_crlf(s),
    ensures
        join(stripped(split(s, '\n')), seq!['\n']) == s,
    decreases s.len(),
{
    let sep = seq!['\n'];
    if s.len() == 0 {
        assert(stripped(split(s, '\n')) =~= seq![Seq::<char>::empty()]);
        return;
    }
    let s0 = s.drop_last();
    assert(no_crlf(s0)) by {
        assert forall|i: int| 0 <= i < s0.len() - 1 implies !(#[trigger] s0[i] == '\r' && s0[i + 1] == '\n') by {
            assert(s0[i] == s[i] && s0[i + 1] == s[i + 1]);
        }
    }
    lemma_join_pieces(s0);
    lemma_split_nonempty(s0, '\n');
    let p0 = split(s0, '\n');
    let n = p0.len();
    if s.last() == '\n' {
        if s0.len() > 0 {
            lemma_last_piece(s0);
            if s0.last() != '\n' {
                assert(!(s[s.len() - 2] == '\r' && s[s.len() - 1] == '\n'));
                assert(s[s.len() - 2] == s0.last());
            }
        }
        assert(strip_cr(p0.last()) == p0.last());
        assert(stripped(split(s, '\n')) =~= stripped(p0).push(Seq::<char>::empty()));
        assert(stripped(p0).push(Seq::<char>::empty()).drop_last() =~= stripped(p0));
        assert(s =~= s0 + sep + Seq::<char>::empty());
    } else {
        let q = stripped(p0);
        assert(stripped(split(s, '\n')) =~= q.update(n - 1, q.last().push(s.last())));
        lemma_join_push_last(q, sep, s.last());
        assert(s =~= s0.push(s.last()));
    }
}

proof fn lemma_trim_end_len(s: Seq<char>)
    ensures
        trim_end(s).len() <= s.len(),
        trim_end(s) == s && s.len() > 0 ==> !is_ws(s.last()),
    decreases s.len(),
{
    if s.len() > 0 && is_ws(s.last()) {
        lemma_trim_end_len(s.drop_last());
    }
}

proof fn lemma_trim_start_len(s: Seq<char>)
    ensures
        trim_start(s).len() <= s.len(),
        trim_start(s).len() == s.len() ==> trim_start(s) == s,
    decreases s.len(),
{
    if s.len() > 0 && is_ws(s[0]) {
        lemma_trim_start_len(s.drop_first());
    }
}

proof fn lemma_line_ends(s: Seq<char>)
    requires
        s.len() > 0,
        !is_ws(s.last()),
    ensures
        trim_line_ends(s.push('\n')) == s,
{
    assert(is_ws('\r') && is_ws('\n'));
    assert(s.last() != '\r' && s.last() != '\n');
    assert(s.push('\n').drop_last() =~= s);
    assert(s.push('\n').last() == '\n');
    assert(trim_line_ends(s) == s);
}

/// A commit message handed to the external editor and read back unchanged
/// keeps its summary and body, whenever the summary is one line without
/// trailing whitespace (and is not empty while there is a body) and the
/// body has no surrounding whitespace and no carriage return before a line
/// feed.
pub proof fn lemma_draft_round_trip(summary: Seq<char>, body: Seq<char>)
    requires
        summary.len() > 0 || body.len() == 0,
        !summary.contains('\n'),
        trim_end(summary) == summary,
        trim(body) == body,
        no_crlf(body),
    ensures
        commit_message_parts(draft_spec(summary, body)) == (summary, body),
{
    reveal_strlit("\n");
    reveal_strlit("\n\n");
    lemma_trim_end_len(summary);
    if body.len() == 0 {
        if summary.len() == 0 {
            assert(summary.push('\n').drop_last() =~= summary);
            assert(summary.push('\n').last() == '\n');
            assert(trim_line_ends(summary) == summary);
            assert(trim_line_ends(summary.push('\n')) == summary);
            assert(lines(summary).len() == 0);
        } else {
            lemma_line_ends(summary);
            lemma_split_single(summary, '\n');
            assert(lines(summary) =~= seq![summary]);
        }
        return;
    }
    lemma_trim_start_len(body);
    lemma_trim_end_len(trim_start(body));
    lemma_trim_end_len(body);
    assert(trim_start(body) == body);
    let t = summary + seq!['\n', '\n'] + body;
    assert(draft_spec(summary, body) =~= t.push('\n'));
    assert(t.last() == body.last());
    lemma_line_ends(t);
    lemma_split_around(summary, seq!['\n'] + body, '\n');
    assert(t =~= summary + seq!['\n'] + (seq!['\n'] + body));
    lemma_split_around(Seq::<char>::empty(), body, '\n');
    assert(seq!['\n'] + body =~= Seq::<char>::empty() + seq!['\n'] + body);
    lemma_split_single(summary, '\n');
    lemma_split_nonempty(Seq::<char>::empty(), '\n');
    let p = split(body, '\n');
    lemma_split_nonempty(body, '\n');
    let parts = split(t, '\n');
    assert(parts =~= seq![summary, Seq::<char>::empty()] + p);
    let ls = lines(t);
    assert(ls =~= stripped(parts));
    assert(strip_cr(summary) == summary);
    assert(ls[0] == summary);
    assert(ls.skip(1) =~= seq![Seq::<char>::empty()] + stripped(p));
    lemma_join_prepend(Seq::<char>::empty(), stripped(p), seq!['\n']);
    lemma_join_pieces(body);
    assert("\n"@ =~= seq!['\n']);
    let joined = join(ls.skip(1), "\n"@);
    assert(joined == Seq::<char>::empty() + seq!['\n'] + join(stripped(p), seq!['\n']));
    assert(joined =~= seq!['\n'] + body);
    assert(joined.drop_first() =~= body);
    assert(trim_start(joined) == trim_start(body));
}

/// The commit message draft for the external editor.
pub fn commit_message_draft(summary: &str, body: &str) -> (r: String)
    ensures
        r@ == draft_spec(summary@, body@),
{
    let mut draft = copy_str(summary);
    let b = chars_of(body);
    if b.len() > 0 {
        let s = chars_of(summary);
        if s.len() > 0 {
            push_str(&mut draft, "\n\n");
        }
        push_str(&mut draft, body);
    }
    push_char(&mut draft, '\n');
    draft
}

/// The message `git commit --file` gets: the trimmed summary, then a blank
/// line and the trimmed body when it is not empty, ending in a newline.
pub open spec fn commit_file_spec(summary: Seq<char>, body: Seq<char>) -> Seq<char> {
    let s = trim(summary);
    let b = trim(body);
    let m = if b.len() > 0 {
        s + "\n\n"@ + b
    } else {
        s
    };
    if m.len() > 0 && m.last() == '\n' {
        m
    } else {
        m.push('\n')
    }
}

/// What submitting the commit dialog does: refuses an empty summary or a
/// commit with nothing staged, else the text of the message file.
pub open spec fn submit_spec(summary: Seq<char>, body: Seq<char>, staged: nat) -> Result<Seq<char>, Seq<char>> {
    if trim(summary).len() == 0 {
        Err("Commit summary cannot be empty"@)
    } else if staged == 0 {
        Err("Stage at least one change before committing"@)
    } else {
        Ok(commit_file_spec(summary, body))
    }
}

/// The commit message file for the dialog's summary and body, or the
/// status message that explains why there is none.
pub fn commit_message_file(summary: &str, body: &str, staged: usize) -> (r: Result<String, String>)
    ensures
        match submit_spec(summary@, body@, staged as nat) {
            Ok(m) => r matches Ok(s) && s@ == m,
            Err(m) => r matches Err(s) && s@ == m,
        },
{
    let sc = chars_of(summary);
    let (sa, sb) = trim_range(&sc, 0, sc.len());
    assert(sc@.subrange(0, sc@.len() as int) =~= sc@);
    if sa == sb {
        return Err(copy_str("Commit summary cannot be empty"));
    }
    if staged == 0 {
        return Err(copy_str("Stage at least one change before committing"));
    }
    let mut m: Vec<char> = crate::text::chars_range(&sc, sa, sb);
    let bc = chars_of(body);
    let (ba, bb) = trim_range(&bc, 0, bc.len());
    assert(bc@.subrange(0, bc@.len() as int) =~= bc@);
    if ba < bb {
        m.push('\n');
        m.push('\n');
        let piece = crate::text::chars_range(&bc, ba, bb);
        append_all(&mut m, &piece);
        assert(m@ =~= trim(summary@) + "\n\n"@ + trim(body@)) by {
            reveal_strlit("\n\n");
        }
    }
    if m.len() == 0 || m[m.len() - 1] != '\n' {
        m.push('\n');
    }
    Ok(string_of(&m))
}

// ---------------------------------------------------------------------------
// Moving through lists
// ---------------------------------------------------------------------------

/// `index + delta` kept inside `0..len` (0 for an empty list).
pub open spec fn moved_index(index: int, len: int, delta: int) -> int {
    if len == 0 {
        0
    } else if index + delta < 0 {
        0
    } else if index + delta > len - 1 {
        len - 1
    } else {
        index + delta
    }
}

/// Moves a selection by `delta` rows, stopping at the first and last row.
pub fn move_index(index: usize, len: usize, delta: isize) -> (r: usize)
    requires
        index <= isize::MAX,
        len <= isize::MAX,
        isize::MIN <= index + delta <= isize::MAX,
    ensures
        r == moved_index(index as int, len as int, delta as int),
{
    if len == 0 {
        return 0;
    }
    let max = len as isize - 1;
    let target = index as isize + delta;
    if target < 0 {
        0
    } else if target > max {
        max as usize
    } else {
        target as usize
    }
}

} // verus!
