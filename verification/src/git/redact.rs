//! Git command lines: the environment each call gets, the text of command
//! failures, and the redaction of credentials from Git messages.
use crate::text::{
    chars_of, chars_range, find_char, find_elem, find_in, find_seq, is_whitespace, is_ws, join,
    line_spans, lines, lossy_chars, lossy_text, opt_index, push_char, push_chars, push_str,
    spans_describe,
    trim, trim_range,
};
use vstd::prelude::*;

verus! {

// ---------------------------------------------------------------------------
// User info in URLs
// ---------------------------------------------------------------------------

/// Characters that end a URL inside a message.
pub open spec fn url_stop(c: char) -> bool {
    is_ws(c) || c == '"' || c == '\'' || c == '<' || c == '>'
}

/// Index of the first URL-ending character of `s` (or its length).
pub open spec fn first_stop(s: Seq<char>) -> int
    decreases s.len(),
{
    if s.len() == 0 {
        0
    } else if url_stop(s[0]) {
        0
    } else {
        1 + first_stop(s.drop_first())
    }
}

proof fn lemma_first_stop(s: Seq<char>, k: int)
    requires
        0 <= k <= s.len(),
        forall|i: int| 0 <= i < k ==> !url_stop(s[i]),
        k == s.len() || url_stop(s[k]),
    ensures
        first_stop(s) == k,
    decreases k,
{
    if k > 0 {
        lemma_first_stop(s.drop_first(), k - 1);
    }
}

/// The authority part `cand` of a URL with its user info, if it has any,
/// replaced by `<redacted>`.
#[verifier::opaque]
pub open spec fn hide_userinfo(cand: Seq<char>) -> Seq<char> {
    match find_elem(cand, '@') {
        Some(at) => "<redacted>"@ + cand.skip(at),
        None => cand,
    }
}

/// Position of the first `://` in `rest`.
#[verifier::opaque]
pub open spec fn scheme_sep(rest: Seq<char>) -> Option<int> {
    find_seq(rest, "://"@)
}

/// `rest` with every `scheme://user@host` authority's user info replaced by
/// `<redacted>`.
#[verifier::opaque]
pub open spec fn redact_userinfo(rest: Seq<char>) -> Seq<char>
    decreases rest.len(),
{
    match scheme_sep(rest) {
        None => rest,
        Some(se) => {
            let a = se + 3;
            if a <= 0 || a > rest.len() {
                rest
            } else {
                let after = rest.skip(a);
                let end = first_stop(after);
                if end < 0 || end > after.len() {
                    rest
                } else {
                    rest.take(a) + hide_userinfo(after.take(end)) + redact_userinfo(after.skip(end))
                }
            }
        },
    }
}

proof fn lemma_userinfo_none(rest: Seq<char>)
    requires
        scheme_sep(rest) is None,
    ensures
        redact_userinfo(rest) == rest,
{
    reveal(redact_userinfo);
}

proof fn lemma_userinfo_step(rest: Seq<char>, se: int, end: int)
    requires
        scheme_sep(rest) == Some(se),
        0 <= se,
        se + 3 <= rest.len(),
        end == first_stop(rest.skip(se + 3)),
        0 <= end <= rest.len() - (se + 3),
    ensures
        redact_userinfo(rest) == rest.take(se + 3) + hide_userinfo(rest.subrange(se + 3, se + 3 + end))
            + redact_userinfo(rest.skip(se + 3 + end)),
{
    let after = rest.skip(se + 3);
    assert(after.take(end) =~= rest.subrange(se + 3, se + 3 + end));
    assert(after.skip(end) =~= rest.skip(se + 3 + end));
    assert(redact_userinfo(rest) == rest.take(se + 3) + hide_userinfo(after.take(end))
        + redact_userinfo(after.skip(end))) by {
        reveal(redact_userinfo);
    }
}

fn is_url_stop(c: char) -> (r: bool)
    ensures
        r == url_stop(c),
{
    is_whitespace(c) || c == '"' || c == '\'' || c == '<' || c == '>'
}

/// Appends `src[a..b]` to `out`.
fn append_range(out: &mut Vec<char>, src: &[char], a: usize, b: usize)
    requires
        a <= b <= src.len(),
    ensures
        final(out)@ == old(out)@ + src@.subrange(a as int, b as int),
{
    let mut i = a;
    while i < b
        invariant
            a <= i <= b <= src.len(),
            out@ == old(out)@ + src@.subrange(a as int, i as int),
        decreases b - i,
    {
        out.push(src[i]);
        assert(src@.subrange(a as int, i + 1) =~= src@.subrange(a as int, i as int).push(src@[i as int]));
        i += 1;
    }
}

/// Appends the characters of `t` to `out`.
fn append_str(out: &mut Vec<char>, t: &str)
    ensures
        final(out)@ == old(out)@ + t@,
{
    let v = chars_of(t);
    append_range(out, &v, 0, v.len());
    assert(v@.subrange(0, v@.len() as int) =~= v@);
}

/// Replaces the user info of URLs in `input` by `<redacted>`.
pub fn redact_url_userinfo(input: &[char]) -> (r: Vec<char>)
    ensures
        r@ == redact_userinfo(input@),
{
    let sep = chars_of("://");
    proof {
        reveal_strlit("://");
    }
    let mut out: Vec<char> = Vec::new();
    let mut pos: usize = 0;
    assert(input@.skip(0) =~= input@);
    loop
        invariant
            pos <= input.len(),
            sep@ == "://"@,
            sep@.len() == 3,
            out@ + redact_userinfo(input@.skip(pos as int)) == redact_userinfo(input@),
        decreases input.len() - pos,
    {
        let ghost rest = input@.skip(pos as int);
        proof {
            assert(input@.subrange(pos as int, input@.len() as int) =~= rest);
        }
        let found = find_in(input, pos, input.len(), &sep);
        assert(opt_index(found) == scheme_sep(rest)) by {
            reveal(scheme_sep);
        }
        let se = match found {
            None => {
                proof {
                    lemma_userinfo_none(rest);
                }
                append_range(&mut out, input, pos, input.len());
                return out;
            },
            Some(se) => se,
        };
        let a = pos + se + 3;
        let mut e = a;
        while e < input.len() && !is_url_stop(input[e])
            invariant
                a <= e <= input.len(),
                forall|i: int| a <= i < e ==> !url_stop(input@[i]),
            decreases input.len() - e,
        {
            e += 1;
        }
        let ghost old_out = out@;
        append_range(&mut out, input, pos, a);
        hide_userinfo_into(&mut out, input, a, e);
        proof {
            lemma_userinfo_advance(input@, pos as int, se as int, e as int, old_out, out@);
        }
        pos = e;
    }
}

proof fn lemma_userinfo_advance(input: Seq<char>, pos: int, se: int, e: int, old_out: Seq<char>, out: Seq<char>)
    requires
        0 <= pos <= input.len(),
        scheme_sep(input.skip(pos)) == Some(se),
        0 <= se,
        pos + se + 3 <= e <= input.len(),
        forall|i: int| pos + se + 3 <= i < e ==> !url_stop(input[i]),
        e == input.len() || url_stop(input[e]),
        old_out + redact_userinfo(input.skip(pos)) == redact_userinfo(input),
        out == old_out + input.subrange(pos, pos + se + 3) + hide_userinfo(input.subrange(pos + se + 3, e)),
    ensures
        out + redact_userinfo(input.skip(e)) == redact_userinfo(input),
{
    let rest = input.skip(pos);
    let a = pos + se + 3;
    assert(rest.skip(se + 3) =~= input.skip(a));
    lemma_first_stop(input.skip(a), e - a);
    lemma_userinfo_step(rest, se, e - a);
    assert(rest.take(se + 3) =~= input.subrange(pos, a));
    assert(rest.subrange(se + 3, se + 3 + (e - a)) =~= input.subrange(a, e));
    assert(rest.skip(se + 3 + (e - a)) =~= input.skip(e));
    assert(out + redact_userinfo(input.skip(e)) =~= old_out + redact_userinfo(rest));
}

/// Appends `hide_userinfo(input[a..e])` to `out`.
fn hide_userinfo_into(out: &mut Vec<char>, input: &[char], a: usize, e: usize)
    requires
        a <= e <= input.len(),
    ensures
        final(out)@ == old(out)@ + hide_userinfo(input@.subrange(a as int, e as int)),
{
    let ghost cand = input@.subrange(a as int, e as int);
    reveal(hide_userinfo);
    match find_char(input, a, e, '@') {
        Some(at) => {
            append_str(out, "<redacted>");
            append_range(out, input, a + at, e);
            assert(input@.subrange(a + at, e as int) =~= cand.skip(at as int));
        },
        None => {
            append_range(out, input, a, e);
        },
    }
}

// ---------------------------------------------------------------------------
// Secrets in query strings
// ---------------------------------------------------------------------------

/// Position just after the `?` or `&` of the first `?key=` (or, if none,
/// the first `&key=`).
#[verifier::opaque]
pub open spec fn query_key_at(input: Seq<char>, key: Seq<char>) -> Option<int> {
    match find_seq(input, seq!['?'] + key + seq!['=']) {
        Some(i) => Some(i + 1),
        None => match find_seq(input, seq!['&'] + key + seq!['=']) {
            Some(i) => Some(i + 1),
            None => None,
        },
    }
}

/// Characters that end a query value.
pub open spec fn value_stop(c: char) -> bool {
    c == '&' || c == '#' || c == ' ' || c == '\t' || c == '\r' || c == '\n' || c == '"' || c == '\''
}

/// Index of the first value-ending character of `s` (or its length).
pub open spec fn value_end(s: Seq<char>) -> int
    decreases s.len(),
{
    if s.len() == 0 {
        0
    } else if value_stop(s[0]) {
        0
    } else {
        1 + value_end(s.drop_first())
    }
}

proof fn lemma_value_end(s: Seq<char>, k: int)
    requires
        0 <= k <= s.len(),
        forall|i: int| 0 <= i < k ==> !value_stop(s[i]),
        k == s.len() || value_stop(s[k]),
    ensures
        value_end(s) == k,
    decreases k,
{
    if k > 0 {
        lemma_value_end(s.drop_first(), k - 1);
    }
}

/// `rest` with the value of every `key=` query parameter replaced by
/// `<redacted>`.
#[verifier::opaque]
pub open spec fn redact_key(rest: Seq<char>, key: Seq<char>) -> Seq<char>
    decreases rest.len(),
{
    match query_key_at(rest, key) {
        None => rest,
        Some(index) => {
            let vs = index + key.len() + 1;
            if vs <= 0 || vs > rest.len() {
                rest
            } else {
                let after = rest.skip(vs);
                let ve = value_end(after);
                if ve < 0 || ve > after.len() {
                    rest
                } else {
                    rest.take(vs) + "<redacted>"@ + redact_key(after.skip(ve), key)
                }
            }
        },
    }
}

proof fn lemma_key_none(rest: Seq<char>, key: Seq<char>)
    requires
        query_key_at(rest, key) is None,
    ensures
        redact_key(rest, key) == rest,
{
    reveal(redact_key);
}

proof fn lemma_key_step(rest: Seq<char>, key: Seq<char>, index: int, ve: int)
    requires
        query_key_at(rest, key) == Some(index),
        0 < index + key.len() + 1 <= rest.len(),
        ve == value_end(rest.skip(index + key.len() + 1)),
        0 <= ve <= rest.len() - (index + key.len() + 1),
    ensures
        redact_key(rest, key) == rest.take(index + key.len() + 1) + "<redacted>"@ + redact_key(
            rest.skip(index + key.len() + 1 + ve),
            key,
        ),
{
    let vs = index + key.len() + 1;
    let after = rest.skip(vs);
    assert(after.skip(ve) =~= rest.skip(vs + ve));
    assert(redact_key(rest, key) == rest.take(vs) + "<redacted>"@ + redact_key(after.skip(ve), key))
        by {
        reveal(redact_key);
    }
}

/// Redaction of all secret query keys, in order.
pub open spec fn redact_secrets(input: Seq<char>) -> Seq<char> {
    redact_key(
        redact_key(
            redact_key(redact_key(redact_key(redact_key(input, "token"@), "access_token"@), "auth"@), "password"@),
            "passwd"@,
        ),
        "key"@,
    )
}

fn find_query_key(input: &[char], start: usize, key: &[char]) -> (r: Option<usize>)
    requires
        start <= input.len(),
    ensures
        opt_pos(r) == query_key_at(input@.skip(start as int), key@),
        r matches Some(i) ==> start + i + key@.len() + 1 <= input.len(),
{
    reveal(query_key_at);
    proof {
        assert(input@.subrange(start as int, input@.len() as int) =~= input@.skip(start as int));
    }
    let mut q: Vec<char> = Vec::new();
    q.push('?');
    let mut amp: Vec<char> = Vec::new();
    amp.push('&');
    let mut k: usize = 0;
    while k < key.len()
        invariant
            k <= key.len(),
            q@ == seq!['?'] + key@.take(k as int),
            amp@ == seq!['&'] + key@.take(k as int),
        decreases key.len() - k,
    {
        q.push(key[k]);
        amp.push(key[k]);
        assert(key@.take(k + 1) =~= key@.take(k as int).push(key@[k as int]));
        k += 1;
    }
    q.push('=');
    amp.push('=');
    proof {
        assert(key@.take(key.len() as int) =~= key@);
        assert(q@ =~= seq!['?'] + key@ + seq!['=']);
        assert(amp@ =~= seq!['&'] + key@ + seq!['=']);
    }
    match find_in(input, start, input.len(), &q) {
        Some(i) => Some(i + 1),
        None => match find_in(input, start, input.len(), &amp) {
            Some(i) => Some(i + 1),
            None => None,
        },
    }
}

pub open spec fn opt_pos(r: Option<usize>) -> Option<int> {
    match r {
        Some(i) => Some(i as int),
        None => None,
    }
}

fn is_value_stop(c: char) -> (r: bool)
    ensures
        r == value_stop(c),
{
    c == '&' || c == '#' || c == ' ' || c == '\t' || c == '\r' || c == '\n' || c == '"' || c == '\''
}

/// Replaces the value of every `key=` query parameter in `input`.
pub fn redact_query_key(input: &[char], key: &[char]) -> (r: Vec<char>)
    ensures
        r@ == redact_key(input@, key@),
{
    let mut out: Vec<char> = Vec::new();
    let mut pos: usize = 0;
    assert(input@.skip(0) =~= input@);
    loop
        invariant
            pos <= input.len(),
            out@ + redact_key(input@.skip(pos as int), key@) == redact_key(input@, key@),
        decreases input.len() - pos,
    {
        let ghost rest = input@.skip(pos as int);
        proof {
            assert(input@.subrange(pos as int, input@.len() as int) =~= rest);
        }
        let index = match find_query_key(input, pos, key) {
            None => {
                proof {
                    lemma_key_none(rest, key@);
                }
                append_range(&mut out, input, pos, input.len());
                return out;
            },
            Some(i) => i,
        };
        let vs = pos + index + key.len() + 1;
        let mut e = vs;
        while e < input.len() && !is_value_stop(input[e])
            invariant
                vs <= e <= input.len(),
                forall|i: int| vs <= i < e ==> !value_stop(input@[i]),
            decreases input.len() - e,
        {
            e += 1;
        }
        let ghost old_out = out@;
        append_range(&mut out, input, pos, vs);
        append_str(&mut out, "<redacted>");
        proof {
            lemma_key_advance(input@, key@, pos as int, index as int, e as int, old_out, out@);
        }
        pos = e;
    }
}

proof fn lemma_key_advance(
    input: Seq<char>,
    key: Seq<char>,
    pos: int,
    index: int,
    e: int,
    old_out: Seq<char>,
    out: Seq<char>,
)
    requires
        0 <= pos <= input.len(),
        query_key_at(input.skip(pos), key) == Some(index),
        0 < index + key.len() + 1,
        pos + index + key.len() + 1 <= e <= input.len(),
        forall|i: int| pos + index + key.len() + 1 <= i < e ==> !value_stop(input[i]),
        e == input.len() || value_stop(input[e]),
        old_out + redact_key(input.skip(pos), key) == redact_key(input, key),
        out == old_out + input.subrange(pos, pos + index + key.len() + 1) + "<redacted>"@,
    ensures
        out + redact_key(input.skip(e), key) == redact_key(input, key),
{
    let rest = input.skip(pos);
    let vr = index + key.len() + 1;
    let vs = pos + vr;
    assert(rest.skip(vr) =~= input.skip(vs));
    lemma_value_end(input.skip(vs), e - vs);
    lemma_key_step(rest, key, index, e - vs);
    assert(rest.take(vr) =~= input.subrange(pos, vs));
    assert(rest.skip(vr + (e - vs)) =~= input.skip(e));
    assert(out + redact_key(input.skip(e), key) =~= old_out + redact_key(rest, key));
}

/// Redacts the values of all secret query keys.
pub fn redact_query_secrets(input: &[char]) -> (r: Vec<char>)
    ensures
        r@ == redact_secrets(input@),
{
    let k1 = chars_of("token");
    let s1 = redact_query_key(input, &k1);
    let k2 = chars_of("access_token");
    let s2 = redact_query_key(&s1, &k2);
    let k3 = chars_of("auth");
    let s3 = redact_query_key(&s2, &k3);
    let k4 = chars_of("password");
    let s4 = redact_query_key(&s3, &k4);
    let k5 = chars_of("passwd");
    let s5 = redact_query_key(&s4, &k5);
    let k6 = chars_of("key");
    redact_query_key(&s5, &k6)
}

// ---------------------------------------------------------------------------
// Long lines and whole messages
// ---------------------------------------------------------------------------

/// The longest line, in characters, that a message keeps whole.
pub const MAX_LINE: usize = 500;

/// `s` cut to `MAX_LINE` characters and marked, when it is longer.
pub open spec fn truncate_line(s: Seq<char>) -> Seq<char> {
    if s.len() <= MAX_LINE {
        s
    } else {
        s.take(MAX_LINE as int) + "...<truncated>"@
    }
}

/// Cuts a line longer than `MAX_LINE` characters.
pub fn truncate_error_line(input: &[char]) -> (r: Vec<char>)
    ensures
        r@ == truncate_line(input@),
{
    let mut out: Vec<char> = Vec::new();
    if input.len() <= MAX_LINE {
        append_range(&mut out, input, 0, input.len());
        assert(input@.subrange(0, input@.len() as int) =~= input@);
        return out;
    }
    append_range(&mut out, input, 0, MAX_LINE);
    append_str(&mut out, "...<truncated>");
    out
}

/// One line of a message with its credentials removed and its length capped.
#[verifier::opaque]
pub open spec fn redact_line(l: Seq<char>) -> Seq<char> {
    truncate_line(redact_secrets(redact_userinfo(l)))
}

/// A whole message, line by line, joined again with `\n`.
pub open spec fn redact_message(s: Seq<char>) -> Seq<char> {
    join(lines(s).map_values(|l: Seq<char>| redact_line(l)), "\n"@)
}

/// Removes credentials from a Git message: the user info of URLs and the
/// values of secret query parameters, line by line, and caps each line.
pub fn redact_git_message(input: &str) -> (r: String)
    ensures
        r@ == redact_message(input@),
{
    let chars = chars_of(input);
    redact_message_chars(&chars)
}

/// `redact_git_message` on a character slice.
pub fn redact_message_chars(input: &[char]) -> (r: String)
    ensures
        r@ == redact_message(input@),
{
    let chars = input;
    let spans = line_spans(&chars);
    let ghost ls = lines(input@);
    let ghost red = ls.map_values(|l: Seq<char>| redact_line(l));
    let mut out = String::new();
    let mut k: usize = 0;
    while k < spans.len()
        invariant
            chars@ == input@,
            ls == lines(input@),
            red == ls.map_values(|l: Seq<char>| redact_line(l)),
            spans_describe(chars@, spans@, ls),
            k <= spans.len(),
            out@ == join(red.take(k as int), "\n"@),
        decreases spans.len() - k,
    {
        let (a, b) = spans[k];
        let line = chars_range(&chars, a, b);
        let u = redact_url_userinfo(&line);
        let q = redact_query_secrets(&u);
        let t = truncate_error_line(&q);
        assert(t@ == redact_line(line@)) by {
            reveal(redact_line);
        }
        if k > 0 {
            push_char(&mut out, '\n');
        }
        push_chars(&mut out, &t);
        proof {
            reveal_strlit("\n");
            let pre = red.take(k as int);
            let nxt = red.take(k + 1);
            assert(nxt.drop_last() =~= pre);
            assert(nxt.last() == t@);
            if k == 0 {
                assert(nxt.len() == 1);
            }
        }
        k += 1;
    }
    proof {
        assert(red.take(spans.len() as int) =~= red);
    }
    out
}

// ---------------------------------------------------------------------------
// Failure texts of Git commands
// ---------------------------------------------------------------------------

/// The detail of a failed command: trimmed standard error, or trimmed
/// standard output where standard error holds nothing but whitespace.
pub open spec fn failure_detail(stderr: Seq<char>, stdout: Seq<char>) -> Seq<char> {
    if trim(stderr).len() == 0 {
        trim(stdout)
    } else {
        trim(stderr)
    }
}

/// The text of a failed command's error.
pub open spec fn command_error_spec(command: Seq<char>, stderr: Seq<char>, stdout: Seq<char>, status: Seq<char>) -> Seq<char> {
    let detail = failure_detail(stderr, stdout);
    if detail.len() == 0 {
        "git "@ + command + " failed with "@ + status
    } else {
        "git "@ + command + " failed: "@ + redact_message(detail)
    }
}

/// Describes a failed Git command from its arguments (joined with spaces),
/// its raw output streams and the text of its exit status.
pub fn command_error_text(command: &str, stderr: &[u8], stdout: &[u8], status: &str) -> (r: String)
    ensures
        r@ == command_error_spec(command@, lossy_chars(stderr@), lossy_chars(stdout@), status@),
{
    let err_text = lossy_text(stderr);
    let out_text = lossy_text(stdout);
    let err = chars_of(err_text.as_str());
    let outc = chars_of(out_text.as_str());
    let (ea, eb) = trim_range(&err, 0, err.len());
    let (oa, ob) = trim_range(&outc, 0, outc.len());
    proof {
        assert(err@.subrange(0, err@.len() as int) =~= err@);
        assert(outc@.subrange(0, outc@.len() as int) =~= outc@);
    }
    let detail = if ea == eb {
        chars_range(&outc, oa, ob)
    } else {
        chars_range(&err, ea, eb)
    };
    let mut msg = String::new();
    push_str(&mut msg, "git ");
    push_str(&mut msg, command);
    if detail.len() == 0 {
        push_str(&mut msg, " failed with ");
        push_str(&mut msg, status);
    } else {
        push_str(&mut msg, " failed: ");
        let red = redact_message_chars(&detail);
        push_str(&mut msg, red.as_str());
    }
    msg
}

/// The text of a Git command that ran out of time.
pub fn command_timeout_text(command: &str) -> (r: String)
    ensures
        r@ == "git "@ + command@ + " timed out"@,
{
    let mut msg = String::new();
    push_str(&mut msg, "git ");
    push_str(&mut msg, command);
    push_str(&mut msg, " timed out");
    msg
}

/// The text of a Git command whose output passed the capture limit.
pub fn command_too_large_text(command: &str) -> (r: String)
    ensures
        r@ == "git "@ + command@ + " produced too much output"@,
{
    let mut msg = String::new();
    push_str(&mut msg, "git ");
    push_str(&mut msg, command);
    push_str(&mut msg, " produced too much output");
    msg
}

/// The arguments of a command joined with single spaces.
pub fn command_line(args: &Vec<String>) -> (r: String)
    ensures
        r@ == join(args@.map_values(|a: String| a@), " "@),
{
    let ghost parts = args@.map_values(|a: String| a@);
    let mut out = String::new();
    let mut k: usize = 0;
    while k < args.len()
        invariant
            parts == args@.map_values(|a: String| a@),
            k <= args.len(),
            out@ == join(parts.take(k as int), " "@),
        decreases args.len() - k,
    {
        if k > 0 {
            push_str(&mut out, " ");
        }
        push_str(&mut out, args[k].as_str());
        proof {
            let nxt = parts.take(k + 1);
            assert(nxt.drop_last() =~= parts.take(k as int));
            if k == 0 {
                assert(nxt.len() == 1);
            }
        }
        k += 1;
    }
    proof {
        assert(parts.take(args.len() as int) =~= parts);
    }
    out
}

/// The environment every `git` call gets: no pager, no credential prompt,
/// literal pathspecs and the C locale; read-only calls also take no
/// optional locks.
pub open spec fn env_spec(read_only: bool) -> Seq<(Seq<char>, Seq<char>)> {
    let base = seq![
        ("GIT_PAGER"@, "cat"@),
        ("PAGER"@, "cat"@),
        ("GIT_TERMINAL_PROMPT"@, "0"@),
        ("GIT_LITERAL_PATHSPECS"@, "1"@),
        ("LC_ALL"@, "C"@),
    ];
    if read_only {
        base.push(("GIT_OPTIONAL_LOCKS"@, "0"@))
    } else {
        base
    }
}

pub fn command_env(read_only: bool) -> (r: Vec<(&'static str, &'static str)>)
    ensures
        r@.map_values(|p: (&'static str, &'static str)| (p.0@, p.1@)) == env_spec(read_only),
{
    let mut r: Vec<(&'static str, &'static str)> = Vec::new();
    r.push(("GIT_PAGER", "cat"));
    r.push(("PAGER", "cat"));
    r.push(("GIT_TERMINAL_PROMPT", "0"));
    r.push(("GIT_LITERAL_PATHSPECS", "1"));
    r.push(("LC_ALL", "C"));
    if read_only {
        r.push(("GIT_OPTIONAL_LOCKS", "0"));
    }
    proof {
        assert(r@.map_values(|p: (&'static str, &'static str)| (p.0@, p.1@)) =~= env_spec(read_only));
    }
    r
}

/// The arguments `git` gets: `-C <repo>` first when the command runs in a
/// repository, then `args`. No shell stands between them and Git.
pub fn git_args(repo: Option<&[u8]>, args: &[Vec<u8>]) -> (r: Vec<Vec<u8>>)
    ensures
        crate::operations::args_view(r@) == match repo {
            Some(p) => crate::operations::in_repo_args(p@, crate::operations::args_view(args@)),
            None => crate::operations::args_view(args@),
        },
{
    let mut r: Vec<Vec<u8>> = Vec::new();
    let ghost lead: Seq<Seq<u8>> = Seq::empty();
    match repo {
        Some(p) => {
            r.push(crate::text::text_bytes("-C"));
            r.push(crate::text::bytes_range(p, 0, p.len()));
            proof {
                assert(p@.subrange(0, p@.len() as int) =~= p@);
                lead = seq![vstd::utf8::encode_utf8("-C"@), p@];
            }
        },
        None => {},
    }
    assert(crate::operations::args_view(r@) =~= lead);
    let mut i: usize = 0;
    while i < args.len()
        invariant
            i <= args.len(),
            crate::operations::args_view(r@) == lead + crate::operations::args_view(args@).take(i as int),
        decreases args.len() - i,
    {
        let ghost before = crate::operations::args_view(r@);
        r.push(crate::git::copy_bytes(&args[i]));
        assert(crate::operations::args_view(r@) =~= before.push(args@[i as int]@));
        assert(crate::operations::args_view(args@).take(i + 1) =~= crate::operations::args_view(args@).take(
            i as int,
        ).push(args@[i as int]@));
        i += 1;
    }
    assert(crate::operations::args_view(args@).take(args.len() as int) =~= crate::operations::args_view(args@));
    proof {
        match repo {
            Some(p) => {
                assert(lead + crate::operations::args_view(args@) =~= crate::operations::in_repo_args(
                    p@,
                    crate::operations::args_view(args@),
                ));
            },
            None => {
                assert(lead + crate::operations::args_view(args@) =~= crate::operations::args_view(args@));
            },
        }
    }
    r
}

} // verus!
