//! Character and byte sequence helpers shared by the parsers.
//!
//! Text is modelled as `Seq<char>` and raw Git output as `Seq<u8>`.  The
//! executable helpers work on `Vec<char>` / byte slices and are proved
//! against the spec functions defined here.
use vstd::prelude::*;
use vstd::utf8::{decode_utf8, valid_utf8};

verus! {

// ---------------------------------------------------------------------------
// Text obtained from bytes
// ---------------------------------------------------------------------------

/// The text that a lossy UTF-8 decoding of `bytes` yields (invalid sequences
/// become U+FFFD).
pub uninterp spec fn lossy_chars(bytes: Seq<u8>) -> Seq<char>;

/// Decodes `bytes` as UTF-8, replacing invalid sequences.
///
/// Calls `String::from_utf8_lossy`.  Its result is named by `lossy_chars`;
/// on valid UTF-8 input the documentation states that the text is decoded
/// unchanged, which is the one fact stated here.
#[verifier::external_body]
pub fn lossy_text(bytes: &[u8]) -> (s: String)
    ensures
        s@ == lossy_chars(bytes@),
        valid_utf8(bytes@) ==> s@ == decode_utf8(bytes@),
{
    String::from_utf8_lossy(bytes).into_owned()
}

/// Strict UTF-8 decoding.
///
/// Calls `std::str::from_utf8`, which succeeds exactly on valid UTF-8 and then
/// yields the decoded characters.
#[verifier::external_body]
pub fn utf8_text(bytes: &[u8]) -> (r: Option<String>)
    ensures
        r is Some <==> valid_utf8(bytes@),
        r matches Some(s) ==> s@ == decode_utf8(bytes@),
{
    std::str::from_utf8(bytes).ok().map(|s| s.to_owned())
}

/// The text of `str::to_lowercase` applied to `s`.
pub uninterp spec fn lowercase_chars(s: Seq<char>) -> Seq<char>;

/// Every character of `s` is ASCII.
pub open spec fn ascii_chars(s: Seq<char>) -> bool {
    forall|i: int| 0 <= i < s.len() ==> (#[trigger] s[i]) <= '\u{7f}'
}

/// An ASCII small letter as its capital letter; every other character as
/// it is.
pub open spec fn ascii_upper_char(c: char) -> char {
    if 'a' <= c && c <= 'z' {
        ((c as u32) - 32) as char
    } else {
        c
    }
}

pub open spec fn ascii_upper(s: Seq<char>) -> Seq<char> {
    s.map_values(|c: char| ascii_upper_char(c))
}

/// Lower-casing as `str::to_lowercase` does it: on ASCII text each capital
/// letter becomes its small letter; other text is named by
/// `lowercase_chars`.
pub open spec fn lower_chars(s: Seq<char>) -> Seq<char> {
    if ascii_chars(s) {
        ascii_lowercase(s)
    } else {
        lowercase_chars(s)
    }
}

/// Unicode lower-casing.
///
/// Calls `str::to_lowercase`. The result is named by `lowercase_chars`; on
/// ASCII text it is the text with `A`-`Z` turned into `a`-`z` and every
/// other character kept, as Unicode's case mapping of ASCII has it.
#[verifier::external_body]
pub fn to_lowercase(s: &str) -> (r: String)
    ensures
        r@ == lowercase_chars(s@),
        ascii_chars(s@) ==> r@ == ascii_lowercase(s@),
{
    s.to_lowercase()
}

/// Upper-casing an ASCII text and lower-casing it again gives what
/// lower-casing it gives.
pub proof fn lemma_lower_upper(s: Seq<char>)
    requires
        ascii_chars(s),
    ensures
        ascii_chars(ascii_upper(s)),
        lower_chars(ascii_upper(s)) == lower_chars(s),
{
    let u = ascii_upper(s);
    assert forall|i: int| 0 <= i < u.len() implies (#[trigger] u[i]) <= '\u{7f}' by {
        assert(s[i] <= '\u{7f}');
    }
    assert(ascii_lowercase(u) =~= ascii_lowercase(s)) by {
        assert forall|i: int| 0 <= i < s.len() implies ascii_lowercase(u)[i] == ascii_lowercase(s)[i] by {
            let c = s[i];
            assert(u[i] == ascii_upper_char(c));
        }
    }
}

/// Upper-casing ASCII letters keeps whitespace whitespace and other
/// characters not.
pub proof fn lemma_upper_ws(c: char)
    ensures
        is_ws(ascii_upper_char(c)) == is_ws(c),
{
}

/// `trim_start` skips whitespace `w` put in front.
pub proof fn lemma_trim_start_prefix(w: Seq<char>, y: Seq<char>)
    requires
        forall|j: int| 0 <= j < w.len() ==> is_ws(#[trigger] w[j]),
    ensures
        trim_start(w + y) == trim_start(y),
{
    lemma_trim_start_skip(w + y, w.len() as int);
    assert((w + y).skip(w.len() as int) =~= y);
}

/// `trim_end` drops whitespace `w` put behind.
pub proof fn lemma_trim_end_suffix(y: Seq<char>, w: Seq<char>)
    requires
        forall|j: int| 0 <= j < w.len() ==> is_ws(#[trigger] w[j]),
    ensures
        trim_end(y + w) == trim_end(y),
{
    lemma_trim_end_take(y + w, y.len() as int);
    assert((y + w).take(y.len() as int) =~= y);
}

/// `trim_start` of `y + w`: what it leaves of `y`, then `w`, unless `y` is
/// all whitespace.
pub proof fn lemma_trim_start_append(y: Seq<char>, w: Seq<char>)
    ensures
        trim_start(y).len() > 0 ==> trim_start(y + w) == trim_start(y) + w,
        trim_start(y).len() == 0 ==> trim_start(y + w) == trim_start(w),
    decreases y.len(),
{
    if y.len() == 0 {
        assert(y + w =~= w);
    } else if is_ws(y[0]) {
        assert((y + w).drop_first() =~= y.drop_first() + w);
        lemma_trim_start_append(y.drop_first(), w);
    }
}

/// Whitespace around a text does not change what `trim` leaves.
pub proof fn lemma_trim_around(w1: Seq<char>, y: Seq<char>, w2: Seq<char>)
    requires
        forall|j: int| 0 <= j < w1.len() ==> is_ws(#[trigger] w1[j]),
        forall|j: int| 0 <= j < w2.len() ==> is_ws(#[trigger] w2[j]),
    ensures
        trim(w1 + y + w2) == trim(y),
{
    assert(w1 + y + w2 =~= w1 + (y + w2));
    lemma_trim_start_prefix(w1, y + w2);
    lemma_trim_start_append(y, w2);
    if trim_start(y).len() > 0 {
        lemma_trim_end_suffix(trim_start(y), w2);
    } else {
        lemma_trim_start_prefix(w2, Seq::empty());
        assert(w2 + Seq::<char>::empty() =~= w2);
    }
}

/// Upper-casing ASCII letters commutes with `trim`.
pub proof fn lemma_trim_upper(s: Seq<char>)
    ensures
        trim(ascii_upper(s)) == ascii_upper(trim(s)),
{
    lemma_trim_start_upper(s);
    lemma_trim_end_upper(trim_start(s));
}

proof fn lemma_trim_start_upper(s: Seq<char>)
    ensures
        trim_start(ascii_upper(s)) == ascii_upper(trim_start(s)),
    decreases s.len(),
{
    if s.len() > 0 {
        lemma_upper_ws(s[0]);
        assert(ascii_upper(s)[0] == ascii_upper_char(s[0]));
        assert(ascii_upper(s).drop_first() =~= ascii_upper(s.drop_first()));
        lemma_trim_start_upper(s.drop_first());
    }
}

proof fn lemma_trim_end_upper(s: Seq<char>)
    ensures
        trim_end(ascii_upper(s)) == ascii_upper(trim_end(s)),
    decreases s.len(),
{
    if s.len() > 0 {
        lemma_upper_ws(s.last());
        assert(ascii_upper(s).last() == ascii_upper_char(s.last()));
        assert(ascii_upper(s).drop_last() =~= ascii_upper(s.drop_last()));
        lemma_trim_end_upper(s.drop_last());
    }
}

/// Appends one character.  Calls `String::push`, which extends the string by
/// exactly that character.
#[verifier::external_body]
pub fn push_char(s: &mut String, c: char)
    ensures
        final(s)@ == old(s)@.push(c),
{
    s.push(c);
}

/// Removes the last character.  Calls `String::pop`, which removes and
/// returns the last character, or returns `None` and leaves an empty string
/// as it is.
#[verifier::external_body]
pub fn pop_char(s: &mut String) -> (r: Option<char>)
    ensures
        old(s)@.len() == 0 ==> r is None && final(s)@ == old(s)@,
        old(s)@.len() > 0 ==> r == Some(old(s)@.last()) && final(s)@ == old(s)@.drop_last(),
{
    s.pop()
}

/// The characters of `s`, in order.
pub fn chars_of(s: &str) -> (v: Vec<char>)
    ensures
        v@ == s@,
{
    let mut v: Vec<char> = Vec::new();
    for c in it: s.chars()
        invariant
            v@ == it.seq().take(it.index() as int),
    {
        v.push(c);
    }
    v
}

/// Builds a `String` from a character slice.
pub fn string_of(v: &[char]) -> (s: String)
    ensures
        s@ == v@,
{
    let mut s = String::new();
    let mut i: usize = 0;
    while i < v.len()
        invariant
            i <= v.len(),
            s@ == v@.take(i as int),
        decreases v.len() - i,
    {
        push_char(&mut s, v[i]);
        assert(v@.take(i + 1) == v@.take(i as int).push(v@[i as int]));
        i += 1;
    }
    assert(v@.take(v.len() as int) == v@);
    s
}

/// Builds a `String` from a range of a character slice.
pub fn string_of_range(v: &[char], start: usize, end: usize) -> (s: String)
    requires
        start <= end <= v.len(),
    ensures
        s@ == v@.subrange(start as int, end as int),
{
    let mut s = String::new();
    let mut i: usize = start;
    while i < end
        invariant
            start <= i <= end <= v.len(),
            s@ == v@.subrange(start as int, i as int),
        decreases end - i,
    {
        push_char(&mut s, v[i]);
        assert(v@.subrange(start as int, i + 1) == v@.subrange(start as int, i as int).push(
            v@[i as int],
        ));
        i += 1;
    }
    s
}

/// Appends all characters of `t` to `s`.
pub fn push_chars(s: &mut String, t: &[char])
    ensures
        final(s)@ == old(s)@ + t@,
{
    let mut i: usize = 0;
    while i < t.len()
        invariant
            i <= t.len(),
            s@ == old(s)@ + t@.take(i as int),
        decreases t.len() - i,
    {
        push_char(s, t[i]);
        assert(t@.take(i + 1) == t@.take(i as int).push(t@[i as int]));
        i += 1;
    }
    assert(t@.take(t.len() as int) == t@);
}

/// Appends all characters of `t` to `s`.
pub fn push_str(s: &mut String, t: &str)
    ensures
        final(s)@ == old(s)@ + t@,
{
    let v = chars_of(t);
    push_chars(s, &v);
}

/// Concatenation of two strings into a new one.
pub fn concat(a: &str, b: &str) -> (s: String)
    ensures
        s@ == a@ + b@,
{
    let mut s = String::new();
    push_str(&mut s, a);
    push_str(&mut s, b);
    assert(s@ == a@ + b@);
    s
}

/// Copy of a string.
pub fn copy_str(a: &str) -> (s: String)
    ensures
        s@ == a@,
{
    let mut s = String::new();
    push_str(&mut s, a);
    assert(s@ =~= a@);
    s
}

// ---------------------------------------------------------------------------
// Sequences in general
// ---------------------------------------------------------------------------

/// `s` begins with `p`.
pub open spec fn starts_with<A>(s: Seq<A>, p: Seq<A>) -> bool {
    p.len() <= s.len() && s.take(p.len() as int) == p
}

/// `s` ends with `p`.
pub open spec fn ends_with<A>(s: Seq<A>, p: Seq<A>) -> bool {
    p.len() <= s.len() && s.skip(s.len() - p.len()) == p
}

/// `p` occurs in `s` at position `i`.
pub open spec fn occurs_at<A>(s: Seq<A>, p: Seq<A>, i: int) -> bool {
    0 <= i && i + p.len() <= s.len() && s.subrange(i, i + p.len()) == p
}

/// `p` occurs somewhere in `s`.
pub open spec fn contains_seq<A>(s: Seq<A>, p: Seq<A>) -> bool {
    exists|i: int| occurs_at(s, p, i)
}

/// Position of the first occurrence of `p` in `s`, if any.
pub open spec fn find_seq<A>(s: Seq<A>, p: Seq<A>) -> Option<int> {
    if contains_seq(s, p) {
        Some(choose|i: int| occurs_at(s, p, i) && forall|j: int| 0 <= j < i ==> !occurs_at(s, p, j))
    } else {
        None
    }
}

/// Position of the first element of `s` that equals `x`, if any.
pub open spec fn find_elem<A>(s: Seq<A>, x: A) -> Option<int> {
    if s.contains(x) {
        Some(choose|i: int| 0 <= i < s.len() && s[i] == x && forall|j: int| 0 <= j < i ==> s[j] != x)
    } else {
        None
    }
}

/// The pieces of `s` between occurrences of `sep` (as `str::split` /
/// `slice::split` produce them: `n` separators give `n + 1` pieces).
pub open spec fn split<A>(s: Seq<A>, sep: A) -> Seq<Seq<A>>
    decreases s.len(),
{
    if s.len() == 0 {
        seq![Seq::empty()]
    } else {
        let pre = split(s.drop_last(), sep);
        if s.last() == sep {
            pre.push(Seq::empty())
        } else {
            pre.update(pre.len() - 1, pre.last().push(s.last()))
        }
    }
}

pub proof fn lemma_split_nonempty<A>(s: Seq<A>, sep: A)
    ensures
        split(s, sep).len() >= 1,
    decreases s.len(),
{
    if s.len() > 0 {
        lemma_split_nonempty(s.drop_last(), sep);
    }
}

/// Splitting at one separator in the middle splits both sides.
pub proof fn lemma_split_around<A>(a: Seq<A>, b: Seq<A>, sep: A)
    ensures
        split(a + seq![sep] + b, sep) == split(a, sep) + split(b, sep),
    decreases b.len(),
{
    let s = a + seq![sep] + b;
    if b.len() == 0 {
        assert(s.drop_last() =~= a);
        assert(split(b, sep) =~= seq![Seq::<A>::empty()]);
        assert(split(s, sep) =~= split(a, sep) + split(b, sep));
    } else {
        let b0 = b.drop_last();
        lemma_split_around(a, b0, sep);
        assert(s.drop_last() =~= a + seq![sep] + b0);
        lemma_split_nonempty(b0, sep);
        assert(split(s, sep) =~= split(a, sep) + split(b, sep));
    }
}

/// A sequence without the separator is a single piece.
pub proof fn lemma_split_single<A>(a: Seq<A>, sep: A)
    requires
        !a.contains(sep),
    ensures
        split(a, sep) == seq![a],
    decreases a.len(),
{
    if a.len() > 0 {
        assert forall|i: int| 0 <= i < a.drop_last().len() implies a.drop_last()[i] != sep by {
            assert(a[i] == a.drop_last()[i]);
        }
        lemma_split_single(a.drop_last(), sep);
        assert(a.last() != sep) by {
            assert(a[a.len() - 1] == a.last());
        }
        assert(a.drop_last().push(a.last()) =~= a);
        assert(split(a, sep) =~= seq![a]);
    } else {
        assert(a =~= Seq::<A>::empty());
    }
}

/// Joining pieces whose last one grows by `x` grows the result by `x`.
pub proof fn lemma_join_push_last(ps: Seq<Seq<char>>, sep: Seq<char>, x: char)
    requires
        ps.len() > 0,
    ensures
        join(ps.update(ps.len() - 1, ps.last().push(x)), sep) == join(ps, sep).push(x),
{
    let q = ps.update(ps.len() - 1, ps.last().push(x));
    if ps.len() > 1 {
        assert(q.drop_last() =~= ps.drop_last());
    }
}

/// Joining a first piece before the others.
pub proof fn lemma_join_prepend(x: Seq<char>, rest: Seq<Seq<char>>, sep: Seq<char>)
    requires
        rest.len() > 0,
    ensures
        join(seq![x] + rest, sep) == x + sep + join(rest, sep),
    decreases rest.len(),
{
    let all = seq![x] + rest;
    if rest.len() == 1 {
        assert(all.drop_last() =~= seq![x]);
        assert(all.last() == rest[0]);
        assert(join(all, sep) == join(all.drop_last(), sep) + sep + all.last());
        assert(join(seq![x], sep) == x);
        assert(join(rest, sep) == rest[0]);
    } else {
        lemma_join_prepend(x, rest.drop_last(), sep);
        assert(all.drop_last() =~= seq![x] + rest.drop_last());
        assert(all.last() == rest.last());
        assert(join(all, sep) == join(all.drop_last(), sep) + sep + all.last());
        assert(join(rest, sep) == join(rest.drop_last(), sep) + sep + rest.last());
        assert(x + sep + join(rest, sep) =~= x + sep + join(rest.drop_last(), sep) + sep + rest.last());
        assert(join(all, sep) =~= x + sep + join(rest, sep));
    }
}

/// The non-empty pieces of `s`.
pub open spec fn nonempty_pieces<A>(pieces: Seq<Seq<A>>) -> Seq<Seq<A>> {
    pieces.filter(|p: Seq<A>| p.len() > 0)
}

/// A span `(start, end)` list describes `pieces` of `s`.
pub open spec fn spans_describe<A>(s: Seq<A>, spans: Seq<(usize, usize)>, pieces: Seq<Seq<A>>) -> bool {
    &&& spans.len() == pieces.len()
    &&& forall|i: int|
        0 <= i < spans.len() ==> {
            &&& (#[trigger] spans[i]).0 <= spans[i].1 <= s.len()
            &&& s.subrange(spans[i].0 as int, spans[i].1 as int) == pieces[i]
        }
}

/// Spans of the pieces of `s` separated by `sep`.
pub fn split_bytes(s: &[u8], sep: u8) -> (spans: Vec<(usize, usize)>)
    ensures
        spans_describe(s@, spans@, split(s@, sep)),
{
    let mut spans: Vec<(usize, usize)> = Vec::new();
    let mut start: usize = 0;
    let mut i: usize = 0;
    proof {
        assert(s@.take(0) =~= Seq::<u8>::empty());
    }
    while i < s.len()
        invariant
            start <= i <= s.len(),
            split(s@.take(i as int), sep).len() == spans.len() + 1,
            spans_describe(s@, spans@, split(s@.take(i as int), sep).take(spans.len() as int)),
            s@.subrange(start as int, i as int) == split(s@.take(i as int), sep).last(),
        decreases s.len() - i,
    {
        let ghost pre = split(s@.take(i as int), sep);
        proof {
            assert(s@.take(i + 1).drop_last() =~= s@.take(i as int));
            lemma_split_nonempty(s@.take(i as int), sep);
        }
        if s[i] == sep {
            spans.push((start, i));
            start = i + 1;
            proof {
                let now = split(s@.take(i + 1), sep);
                assert(now == pre.push(Seq::empty()));
                assert(now.take(spans.len() as int) =~= pre);
                assert(s@.subrange(start as int, i + 1) =~= Seq::<u8>::empty());
            }
        } else {
            proof {
                let now = split(s@.take(i + 1), sep);
                assert(now == pre.update(pre.len() - 1, pre.last().push(s@[i as int])));
                assert(now.take(spans.len() as int) =~= pre.take(spans.len() as int));
                assert(s@.subrange(start as int, i + 1) =~= s@.subrange(start as int, i as int).push(
                    s@[i as int],
                ));
            }
        }
        i += 1;
    }
    spans.push((start, i));
    proof {
        assert(s@.take(s.len() as int) =~= s@);
        let all = split(s@, sep);
        assert(all.take(spans.len() as int) =~= all);
        assert forall|k: int| 0 <= k < spans.len() implies {
            &&& (#[trigger] spans@[k]).0 <= spans@[k].1 <= s@.len()
            &&& s@.subrange(spans@[k].0 as int, spans@[k].1 as int) == all[k]
        } by {
            if k < spans.len() - 1 {
                assert(all.take(spans.len() - 1)[k] == all[k]);
            }
        }
    }
    spans
}

/// Spans of the pieces of `s` separated by `sep`.
pub fn split_chars(s: &[char], sep: char) -> (spans: Vec<(usize, usize)>)
    ensures
        spans_describe(s@, spans@, split(s@, sep)),
{
    let mut spans: Vec<(usize, usize)> = Vec::new();
    let mut start: usize = 0;
    let mut i: usize = 0;
    proof {
        assert(s@.take(0) =~= Seq::<char>::empty());
    }
    while i < s.len()
        invariant
            start <= i <= s.len(),
            split(s@.take(i as int), sep).len() == spans.len() + 1,
            spans_describe(s@, spans@, split(s@.take(i as int), sep).take(spans.len() as int)),
            s@.subrange(start as int, i as int) == split(s@.take(i as int), sep).last(),
        decreases s.len() - i,
    {
        let ghost pre = split(s@.take(i as int), sep);
        proof {
            assert(s@.take(i + 1).drop_last() =~= s@.take(i as int));
            lemma_split_nonempty(s@.take(i as int), sep);
        }
        if s[i] == sep {
            spans.push((start, i));
            start = i + 1;
            proof {
                let now = split(s@.take(i + 1), sep);
                assert(now == pre.push(Seq::empty()));
                assert(now.take(spans.len() as int) =~= pre);
                assert(s@.subrange(start as int, i + 1) =~= Seq::<char>::empty());
            }
        } else {
            proof {
                let now = split(s@.take(i + 1), sep);
                assert(now == pre.update(pre.len() - 1, pre.last().push(s@[i as int])));
                assert(now.take(spans.len() as int) =~= pre.take(spans.len() as int));
                assert(s@.subrange(start as int, i + 1) =~= s@.subrange(start as int, i as int).push(
                    s@[i as int],
                ));
            }
        }
        i += 1;
    }
    spans.push((start, i));
    proof {
        assert(s@.take(s.len() as int) =~= s@);
        let all = split(s@, sep);
        assert(all.take(spans.len() as int) =~= all);
        assert forall|k: int| 0 <= k < spans.len() implies {
            &&& (#[trigger] spans@[k]).0 <= spans@[k].1 <= s@.len()
            &&& s@.subrange(spans@[k].0 as int, spans@[k].1 as int) == all[k]
        } by {
            if k < spans.len() - 1 {
                assert(all.take(spans.len() - 1)[k] == all[k]);
            }
        }
    }
    spans
}


// ---------------------------------------------------------------------------
// Whitespace, trimming, lines, words
// ---------------------------------------------------------------------------

/// Unicode `White_Space` (the property `char::is_whitespace` tests).
pub open spec fn is_ws(c: char) -> bool {
    ||| ('\u{9}' <= c && c <= '\u{d}')
    ||| c == ' '
    ||| c == '\u{85}'
    ||| c == '\u{a0}'
    ||| c == '\u{1680}'
    ||| ('\u{2000}' <= c && c <= '\u{200a}')
    ||| c == '\u{2028}'
    ||| c == '\u{2029}'
    ||| c == '\u{202f}'
    ||| c == '\u{205f}'
    ||| c == '\u{3000}'
}

/// `char::is_whitespace`.
pub fn is_whitespace(c: char) -> (r: bool)
    ensures
        r == is_ws(c),
{
    ('\u{9}' <= c && c <= '\u{d}') || c == ' ' || c == '\u{85}' || c == '\u{a0}' || c == '\u{1680}'
        || ('\u{2000}' <= c && c <= '\u{200a}') || c == '\u{2028}' || c == '\u{2029}' || c
        == '\u{202f}' || c == '\u{205f}' || c == '\u{3000}'
}

/// `s` without its leading whitespace.
pub open spec fn trim_start(s: Seq<char>) -> Seq<char>
    decreases s.len(),
{
    if s.len() > 0 && is_ws(s[0]) {
        trim_start(s.drop_first())
    } else {
        s
    }
}

/// `s` without its trailing whitespace.
pub open spec fn trim_end(s: Seq<char>) -> Seq<char>
    decreases s.len(),
{
    if s.len() > 0 && is_ws(s.last()) {
        trim_end(s.drop_last())
    } else {
        s
    }
}

/// `s` without leading and trailing whitespace (`str::trim`).
pub open spec fn trim(s: Seq<char>) -> Seq<char> {
    trim_end(trim_start(s))
}

proof fn lemma_trim_start_skip(s: Seq<char>, k: int)
    requires
        0 <= k <= s.len(),
        forall|j: int| 0 <= j < k ==> is_ws(s[j]),
    ensures
        trim_start(s) == trim_start(s.skip(k)),
    decreases k,
{
    if k > 0 {
        assert(s.skip(1) == s.drop_first());
        lemma_trim_start_skip(s.drop_first(), k - 1);
        assert(s.drop_first().skip(k - 1) =~= s.skip(k));
    } else {
        assert(s.skip(0) =~= s);
    }
}

proof fn lemma_trim_end_take(s: Seq<char>, k: int)
    requires
        0 <= k <= s.len(),
        forall|j: int| k <= j < s.len() ==> is_ws(s[j]),
    ensures
        trim_end(s) == trim_end(s.take(k)),
    decreases s.len() - k,
{
    if k < s.len() {
        lemma_trim_end_take(s.drop_last(), k);
        assert(s.drop_last().take(k) =~= s.take(k));
    } else {
        assert(s.take(k) =~= s);
    }
}

/// Bounds `(a, b)` such that `s[a..b]` is `trim(s[start..end])`.
pub fn trim_range(s: &[char], start: usize, end: usize) -> (r: (usize, usize))
    requires
        start <= end <= s.len(),
    ensures
        start <= r.0 <= r.1 <= end,
        s@.subrange(r.0 as int, r.1 as int) == trim(s@.subrange(start as int, end as int)),
{
    let ghost t = s@.subrange(start as int, end as int);
    let mut a = start;
    while a < end && is_whitespace(s[a])
        invariant
            start <= a <= end <= s.len(),
            forall|j: int| start <= j < a ==> is_ws(s@[j]),
        decreases end - a,
    {
        a += 1;
    }
    proof {
        lemma_trim_start_skip(t, a - start);
        assert(t.skip(a - start) =~= s@.subrange(a as int, end as int));
        if a < end {
            assert(!is_ws(s@[a as int]));
        }
    }
    let mut b = end;
    while b > a && is_whitespace(s[b - 1])
        invariant
            start <= a <= b <= end <= s.len(),
            forall|j: int| b <= j < end ==> is_ws(s@[j]),
        decreases b - a,
    {
        b -= 1;
    }
    proof {
        let u = s@.subrange(a as int, end as int);
        assert(trim_start(u) == u);
        lemma_trim_end_take(u, b - a);
        assert(u.take(b - a) =~= s@.subrange(a as int, b as int));
        let v = s@.subrange(a as int, b as int);
        if b > a {
            assert(!is_ws(v.last()));
        }
    }
    (a, b)
}

/// Removes one trailing carriage return.
pub open spec fn strip_cr(p: Seq<char>) -> Seq<char> {
    if p.len() > 0 && p.last() == '\r' {
        p.drop_last()
    } else {
        p
    }
}

/// The lines of `s` as `str::lines` yields them: split at `\n`, a `\r`
/// directly before a `\n` is dropped, and a final line ending adds no empty
/// line.
pub open spec fn lines(s: Seq<char>) -> Seq<Seq<char>> {
    if s.len() == 0 {
        Seq::empty()
    } else {
        let parts = split(s, '\n');
        let kept = if s.last() == '\n' {
            parts.drop_last()
        } else {
            parts
        };
        Seq::new(
            kept.len(),
            |i: int|
                if i < parts.len() - 1 {
                    strip_cr(kept[i])
                } else {
                    kept[i]
                },
        )
    }
}

proof fn lemma_split_last_empty(s: Seq<char>, sep: char)
    requires
        s.len() > 0,
        s.last() == sep,
    ensures
        split(s, sep).last() == Seq::<char>::empty(),
        split(s, sep).len() >= 2,
{
    lemma_split_nonempty(s.drop_last(), sep);
}

/// Spans of the lines of `s`.
pub fn line_spans(s: &[char]) -> (spans: Vec<(usize, usize)>)
    ensures
        spans_describe(s@, spans@, lines(s@)),
{
    let mut out: Vec<(usize, usize)> = Vec::new();
    if s.len() == 0 {
        return out;
    }
    let parts = split_chars(s, '\n');
    let ghost pv = split(s@, '\n');
    let n = parts.len();
    let kept = if s[s.len() - 1] == '\n' {
        proof {
            lemma_split_last_empty(s@, '\n');
        }
        n - 1
    } else {
        n
    };
    let mut i: usize = 0;
    while i < kept
        invariant
            s.len() > 0,
            kept <= n,
            n == parts.len(),
            pv == split(s@, '\n'),
            spans_describe(s@, parts@, pv),
            kept == lines(s@).len(),
            i <= kept,
            spans_describe(s@, out@, lines(s@).take(i as int)),
        decreases kept - i,
    {
        let (a, b) = parts[i];
        let ghost piece = pv[i as int];
        if i + 1 < n && b > a && s[b - 1] == '\r' {
            out.push((a, b - 1));
            proof {
                assert(s@.subrange(a as int, b - 1) =~= piece.drop_last());
            }
        } else {
            out.push((a, b));
        }
        proof {
            let ls = lines(s@);
            assert forall|k: int| 0 <= k < out.len() implies {
                &&& (#[trigger] out@[k]).0 <= out@[k].1 <= s@.len()
                &&& s@.subrange(out@[k].0 as int, out@[k].1 as int) == ls.take(i + 1)[k]
            } by {
                if k < i {
                    assert(ls.take(i as int)[k] == ls.take(i + 1)[k]);
                }
            }
        }
        i += 1;
    }
    proof {
        assert(lines(s@).take(kept as int) =~= lines(s@));
    }
    out
}

/// Spans of the pieces of `s` separated by whitespace characters.
pub open spec fn split_ws(s: Seq<char>) -> Seq<Seq<char>>
    decreases s.len(),
{
    if s.len() == 0 {
        seq![Seq::empty()]
    } else {
        let pre = split_ws(s.drop_last());
        if is_ws(s.last()) {
            pre.push(Seq::empty())
        } else {
            pre.update(pre.len() - 1, pre.last().push(s.last()))
        }
    }
}

proof fn lemma_split_ws_nonempty(s: Seq<char>)
    ensures
        split_ws(s).len() >= 1,
    decreases s.len(),
{
    if s.len() > 0 {
        lemma_split_ws_nonempty(s.drop_last());
    }
}

/// The whitespace-separated words of `s` (`str::split_whitespace`).
pub open spec fn words(s: Seq<char>) -> Seq<Seq<char>> {
    nonempty_pieces(split_ws(s))
}

fn split_ws_spans(s: &[char], start: usize, end: usize) -> (spans: Vec<(usize, usize)>)
    requires
        start <= end <= s.len(),
    ensures
        spans_describe(s@, spans@, split_ws(s@.subrange(start as int, end as int))),
{
    let ghost t = s@.subrange(start as int, end as int);
    let mut spans: Vec<(usize, usize)> = Vec::new();
    let mut first: usize = start;
    let mut i: usize = start;
    proof {
        assert(t.take(0) =~= Seq::<char>::empty());
    }
    while i < end
        invariant
            start <= first <= i <= end <= s.len(),
            t == s@.subrange(start as int, end as int),
            split_ws(t.take(i - start)).len() == spans.len() + 1,
            spans_describe(s@, spans@, split_ws(t.take(i - start)).take(spans.len() as int)),
            s@.subrange(first as int, i as int) == split_ws(t.take(i - start)).last(),
        decreases end - i,
    {
        let ghost pre = split_ws(t.take(i - start));
        proof {
            assert(t.take(i + 1 - start).drop_last() =~= t.take(i - start));
            assert(t.take(i + 1 - start).last() == s@[i as int]);
            lemma_split_ws_nonempty(t.take(i - start));
        }
        if is_whitespace(s[i]) {
            spans.push((first, i));
            first = i + 1;
            proof {
                let now = split_ws(t.take(i + 1 - start));
                assert(now == pre.push(Seq::empty()));
                assert(now.take(spans.len() as int) =~= pre);
                assert(s@.subrange(first as int, i + 1) =~= Seq::<char>::empty());
            }
        } else {
            proof {
                let now = split_ws(t.take(i + 1 - start));
                assert(now == pre.update(pre.len() - 1, pre.last().push(s@[i as int])));
                assert(now.take(spans.len() as int) =~= pre.take(spans.len() as int));
                assert(s@.subrange(first as int, i + 1) =~= s@.subrange(first as int, i as int).push(
                    s@[i as int],
                ));
            }
        }
        i += 1;
    }
    spans.push((first, i));
    proof {
        assert(t.take(end - start) =~= t);
        let all = split_ws(t);
        assert(all.take(spans.len() as int) =~= all);
        assert forall|k: int| 0 <= k < spans.len() implies {
            &&& (#[trigger] spans@[k]).0 <= spans@[k].1 <= s@.len()
            &&& s@.subrange(spans@[k].0 as int, spans@[k].1 as int) == all[k]
        } by {
            if k < spans.len() - 1 {
                assert(all.take(spans.len() - 1)[k] == all[k]);
            }
        }
    }
    spans
}

/// Keeps the spans of non-empty pieces.
pub fn keep_nonempty<A>(s: &[A], spans: &Vec<(usize, usize)>, Ghost(pieces): Ghost<Seq<Seq<A>>>) -> (out: Vec<(usize, usize)>)
    requires
        spans_describe(s@, spans@, pieces),
    ensures
        spans_describe(s@, out@, nonempty_pieces(pieces)),
{
    let mut out: Vec<(usize, usize)> = Vec::new();
    let mut i: usize = 0;
    proof {
        reveal(Seq::filter);
        assert(pieces.take(0) =~= Seq::<Seq<A>>::empty());
    }
    while i < spans.len()
        invariant
            i <= spans.len(),
            spans_describe(s@, spans@, pieces),
            spans_describe(s@, out@, nonempty_pieces(pieces.take(i as int))),
        decreases spans.len() - i,
    {
        let (a, b) = spans[i];
        proof {
            reveal(Seq::filter);
            assert(pieces.take(i + 1).drop_last() =~= pieces.take(i as int));
            assert(pieces.take(i + 1).last() == pieces[i as int]);
        }
        if a < b {
            out.push((a, b));
            proof {
                let f = nonempty_pieces(pieces.take(i + 1));
                assert(f == nonempty_pieces(pieces.take(i as int)).push(pieces[i as int]));
                assert forall|k: int| 0 <= k < out.len() implies {
                    &&& (#[trigger] out@[k]).0 <= out@[k].1 <= s@.len()
                    &&& s@.subrange(out@[k].0 as int, out@[k].1 as int) == f[k]
                } by {}
            }
        } else {
            proof {
                assert(pieces[i as int].len() == 0);
            }
        }
        i += 1;
    }
    proof {
        assert(pieces.take(spans.len() as int) =~= pieces);
    }
    out
}

/// Spans of the whitespace-separated words of `s[start..end]`.
pub fn word_spans(s: &[char], start: usize, end: usize) -> (spans: Vec<(usize, usize)>)
    requires
        start <= end <= s.len(),
    ensures
        spans_describe(s@, spans@, words(s@.subrange(start as int, end as int))),
{
    let all = split_ws_spans(s, start, end);
    keep_nonempty(s, &all, Ghost(split_ws(s@.subrange(start as int, end as int))))
}


// ---------------------------------------------------------------------------
// Comparisons and searching
// ---------------------------------------------------------------------------

/// Equality of two character slices.
pub fn chars_eq(a: &[char], b: &[char]) -> (r: bool)
    ensures
        r == (a@ == b@),
{
    if a.len() != b.len() {
        return false;
    }
    let mut i: usize = 0;
    while i < a.len()
        invariant
            a.len() == b.len(),
            i <= a.len(),
            forall|j: int| 0 <= j < i ==> a@[j] == b@[j],
        decreases a.len() - i,
    {
        if a[i] != b[i] {
            return false;
        }
        i += 1;
    }
    assert(a@ =~= b@);
    true
}

/// Equality of two byte slices.
pub fn bytes_eq(a: &[u8], b: &[u8]) -> (r: bool)
    ensures
        r == (a@ == b@),
{
    if a.len() != b.len() {
        return false;
    }
    let mut i: usize = 0;
    while i < a.len()
        invariant
            a.len() == b.len(),
            i <= a.len(),
            forall|j: int| 0 <= j < i ==> a@[j] == b@[j],
        decreases a.len() - i,
    {
        if a[i] != b[i] {
            return false;
        }
        i += 1;
    }
    assert(a@ =~= b@);
    true
}

/// Equality of two strings.
pub fn str_eq(a: &str, b: &str) -> (r: bool)
    ensures
        r == (a@ == b@),
{
    let x = chars_of(a);
    let y = chars_of(b);
    chars_eq(&x, &y)
}

/// An optional index as an optional integer.
pub open spec fn opt_index(r: Option<usize>) -> Option<int> {
    match r {
        Some(i) => Some(i as int),
        None => None,
    }
}

/// An optional number as an optional integer.
pub open spec fn opt_u64(r: Option<u64>) -> Option<int> {
    match r {
        Some(i) => Some(i as int),
        None => None,
    }
}

/// `p` occurs in `s` at position `i`.
pub fn chars_occur_at(s: &[char], p: &[char], i: usize) -> (r: bool)
    ensures
        r == occurs_at(s@, p@, i as int),
{
    if i > s.len() || p.len() > s.len() - i {
        return false;
    }
    let mut k: usize = 0;
    while k < p.len()
        invariant
            i + p.len() <= s.len(),
            k <= p.len(),
            forall|j: int| 0 <= j < k ==> s@[i + j] == p@[j],
        decreases p.len() - k,
    {
        if s[i + k] != p[k] {
            assert(s@.subrange(i as int, i + p.len())[k as int] != p@[k as int]);
            return false;
        }
        k += 1;
    }
    assert(s@.subrange(i as int, i + p.len()) =~= p@);
    true
}

/// `s[start..end]` begins with `p`.
pub fn chars_starts_with(s: &[char], start: usize, end: usize, p: &[char]) -> (r: bool)
    requires
        start <= end <= s.len(),
    ensures
        r == starts_with(s@.subrange(start as int, end as int), p@),
{
    if p.len() > end - start {
        return false;
    }
    let r = chars_occur_at(s, p, start);
    assert(s@.subrange(start as int, end as int).take(p.len() as int) =~= s@.subrange(
        start as int,
        start + p.len(),
    ));
    r
}

/// Position of the first occurrence of `p` in `s[start..end]`, relative to `start`.
pub fn find_in(s: &[char], start: usize, end: usize, p: &[char]) -> (r: Option<usize>)
    requires
        start <= end <= s.len(),
    ensures
        opt_index(r) == find_seq(s@.subrange(start as int, end as int), p@),
        r matches Some(i) ==> i + p.len() <= end - start,
{
    let ghost t = s@.subrange(start as int, end as int);
    if p.len() > end - start {
        proof {
            assert(!contains_seq(t, p@));
        }
        return None;
    }
    let limit = end - start - p.len();
    let mut i: usize = 0;
    loop
        invariant
            start <= end <= s.len(),
            p.len() <= end - start,
            limit == end - start - p.len(),
            i <= limit,
            t == s@.subrange(start as int, end as int),
            forall|j: int| 0 <= j < i ==> !occurs_at(t, p@, j),
        ensures
            forall|j: int| 0 <= j <= limit ==> !occurs_at(t, p@, j),
        decreases limit - i,
    {
        let hit = chars_occur_at(s, p, start + i);
        proof {
            assert(t.subrange(i as int, i + p.len()) =~= s@.subrange(start + i, start + i + p.len()));
        }
        if hit {
            proof {
                assert(occurs_at(t, p@, i as int));
                assert(contains_seq(t, p@));
                let c = choose|k: int| occurs_at(t, p@, k) && forall|j: int| 0 <= j < k ==> !occurs_at(t, p@, j);
                assert(c == i) by {
                    if c < i {
                    } else if c > i {
                    }
                }
            }
            return Some(i);
        }
        if i == limit {
            break;
        }
        i += 1;
    }
    proof {
        assert forall|j: int| !occurs_at(t, p@, j) by {
            if 0 <= j && j > limit {
                assert(j + p.len() > t.len());
            }
        }
    }
    None
}

/// Position (relative to `start`) of the first `x` in `s[start..end]`.
pub fn find_char(s: &[char], start: usize, end: usize, x: char) -> (r: Option<usize>)
    requires
        start <= end <= s.len(),
    ensures
        opt_index(r) == find_elem(s@.subrange(start as int, end as int), x),
        r matches Some(i) ==> i < end - start,
{
    let ghost t = s@.subrange(start as int, end as int);
    let mut i: usize = start;
    while i < end
        invariant
            start <= i <= end <= s.len(),
            t == s@.subrange(start as int, end as int),
            forall|j: int| 0 <= j < i - start ==> t[j] != x,
        decreases end - i,
    {
        if s[i] == x {
            proof {
                assert(t[i - start] == x);
                assert(t.contains(x));
                let c = choose|k: int| 0 <= k < t.len() && t[k] == x && forall|j: int| 0 <= j < k ==> t[j] != x;
                assert(c == i - start) by {
                    if c < i - start {
                    } else if c > i - start {
                    }
                }
            }
            return Some(i - start);
        }
        i += 1;
    }
    proof {
        assert(!t.contains(x));
    }
    None
}

/// Position (relative to `start`) of the last `x` in `s[start..end]`.
pub fn rfind_char(s: &[char], start: usize, end: usize, x: char) -> (r: Option<usize>)
    requires
        start <= end <= s.len(),
    ensures
        r matches Some(i) ==> i < end - start && s@[start + i] == x && forall|j: int|
            start + i < j < end ==> s@[j] != x,
        r is None ==> forall|j: int| start <= j < end ==> s@[j] != x,
{
    let mut i: usize = end;
    while i > start
        invariant
            start <= i <= end <= s.len(),
            forall|j: int| i <= j < end ==> s@[j] != x,
        decreases i - start,
    {
        if s[i - 1] == x {
            return Some(i - 1 - start);
        }
        i -= 1;
    }
    None
}

/// `p` occurs in `s`.
pub fn chars_contains(s: &[char], p: &[char]) -> (r: bool)
    ensures
        r == contains_seq(s@, p@),
{
    let f = find_in(s, 0, s.len(), p);
    assert(s@.subrange(0, s@.len() as int) =~= s@);
    f.is_some()
}

// ---------------------------------------------------------------------------
// Numbers
// ---------------------------------------------------------------------------

/// `c` is an ASCII decimal digit.
pub open spec fn is_digit(c: char) -> bool {
    '0' <= c && c <= '9'
}

/// Value of a run of decimal digits.
pub open spec fn digits_value(s: Seq<char>) -> int
    decreases s.len(),
{
    if s.len() == 0 {
        0
    } else {
        digits_value(s.drop_last()) * 10 + (s.last() as int - '0' as int)
    }
}

/// `s` without one leading `+`.
pub open spec fn sign_stripped(s: Seq<char>) -> Seq<char> {
    if s.len() > 0 && s[0] == '+' {
        s.drop_first()
    } else {
        s
    }
}

/// Every character of `d` is a decimal digit.
pub open spec fn all_digits(d: Seq<char>) -> bool {
    forall|i: int| 0 <= i < d.len() ==> is_digit(#[trigger] d[i])
}

/// The result of `str::parse` into an unsigned integer type whose largest
/// value is `max`: an optional `+` sign followed by one or more decimal
/// digits whose value does not exceed `max`.
pub open spec fn parse_unsigned(s: Seq<char>, max: int) -> Option<int> {
    let d = sign_stripped(s);
    if d.len() > 0 && all_digits(d) && digits_value(d) <= max {
        Some(digits_value(d))
    } else {
        None
    }
}

proof fn lemma_digits_value_nonneg(s: Seq<char>)
    requires
        forall|i: int| 0 <= i < s.len() ==> is_digit(s[i]),
    ensures
        digits_value(s) >= 0,
    decreases s.len(),
{
    if s.len() > 0 {
        lemma_digits_value_nonneg(s.drop_last());
    }
}

proof fn lemma_digits_value_grows(s: Seq<char>, k: int)
    requires
        0 <= k <= s.len(),
        forall|i: int| 0 <= i < s.len() ==> is_digit(s[i]),
    ensures
        digits_value(s.take(k)) <= digits_value(s),
    decreases s.len() - k,
{
    if k < s.len() {
        lemma_digits_value_grows(s.drop_last(), k);
        assert(s.drop_last().take(k) =~= s.take(k));
        lemma_digits_value_nonneg(s.drop_last());
    } else {
        assert(s.take(k) =~= s);
    }
}

/// Parses `s[start..end]` as an unsigned number not larger than `max`.
pub fn parse_unsigned_range(s: &[char], start: usize, end: usize, max: u64) -> (r: Option<u64>)
    requires
        start <= end <= s.len(),
    ensures
        opt_u64(r) == parse_unsigned(s@.subrange(start as int, end as int), max as int),
{
    let ghost t = s@.subrange(start as int, end as int);
    let mut a = start;
    if a < end && s[a] == '+' {
        a += 1;
    }
    let ghost d = s@.subrange(a as int, end as int);
    proof {
        if start < end && s@[start as int] == '+' {
            assert(d =~= t.drop_first());
        } else {
            assert(d =~= t);
        }
    }
    if a == end {
        return None;
    }
    let mut value: u64 = 0;
    let mut i = a;
    while i < end
        invariant
            start <= a < end <= s.len(),
            a <= i <= end,
            d == s@.subrange(a as int, end as int),
            t == s@.subrange(start as int, end as int),
            d == sign_stripped(t),
            forall|j: int| 0 <= j < i - a ==> is_digit(d[j]),
            value as int == digits_value(d.take(i - a)),
            value <= max,
        decreases end - i,
    {
        let c = s[i];
        if !('0' <= c && c <= '9') {
            proof {
                assert(!is_digit(d[i - a]));
                assert(!all_digits(d));
            }
            return None;
        }
        let digit = (c as u32 - '0' as u32) as u64;
        proof {
            assert(d.take(i + 1 - a).drop_last() =~= d.take(i - a));
            assert(d.take(i + 1 - a).last() == c);
        }
        if digit > max || value > (max - digit) / 10 {
            proof {
                assert(value * 10 + digit > max) by (nonlinear_arith)
                    requires
                        digit > max || value > (max - digit) / 10,
                ;
                if all_digits(d) {
                    lemma_digits_value_grows(d, i + 1 - a);
                    assert(digits_value(d) > max);
                }
            }
            return None;
        }
        proof {
            assert(value * 10 + digit <= max) by (nonlinear_arith)
                requires
                    value <= (max - digit) / 10,
                    digit <= max,
            ;
        }
        value = value * 10 + digit;
        i += 1;
    }
    proof {
        assert(d.take(end - a) =~= d);
    }
    Some(value)
}

/// Decimal digits of `n`.
pub open spec fn decimal(n: nat) -> Seq<char>
    decreases n,
{
    if n < 10 {
        seq![digit_char(n)]
    } else {
        decimal(n / 10).push(digit_char(n % 10))
    }
}

/// The ASCII digit for `d < 10`.
pub open spec fn digit_char(d: nat) -> char {
    ('0' as u32 + d) as char
}

/// Decimal rendering of `n` (as `format!("{n}")` prints it).
pub fn decimal_string(n: u64) -> (s: String)
    ensures
        s@ == decimal(n as nat),
    decreases n,
{
    if n < 10 {
        let mut s = String::new();
        let c = char_from_digit(n);
        push_char(&mut s, c);
        assert(s@ =~= seq![digit_char(n as nat)]);
        s
    } else {
        let mut s = decimal_string(n / 10);
        let c = char_from_digit(n % 10);
        push_char(&mut s, c);
        s
    }
}

fn char_from_digit(d: u64) -> (c: char)
    requires
        d < 10,
    ensures
        c == digit_char(d as nat),
{
    if d == 0 { '0' } else if d == 1 { '1' } else if d == 2 { '2' } else if d == 3 { '3' } else if d == 4 {
        '4'
    } else if d == 5 { '5' } else if d == 6 { '6' } else if d == 7 { '7' } else if d == 8 { '8' } else {
        '9'
    }
}

// ---------------------------------------------------------------------------
// Case
// ---------------------------------------------------------------------------

/// ASCII lower-casing of one character.
pub open spec fn ascii_lower(c: char) -> char {
    if 'A' <= c && c <= 'Z' {
        ((c as u32) + 32) as char
    } else {
        c
    }
}

/// `str::to_ascii_lowercase`.
pub open spec fn ascii_lowercase(s: Seq<char>) -> Seq<char> {
    s.map_values(|c: char| ascii_lower(c))
}

pub fn to_ascii_lowercase(s: &[char]) -> (r: Vec<char>)
    ensures
        r@ == ascii_lowercase(s@),
{
    let mut r: Vec<char> = Vec::new();
    let mut i: usize = 0;
    while i < s.len()
        invariant
            i <= s.len(),
            r@ == ascii_lowercase(s@.take(i as int)),
        decreases s.len() - i,
    {
        let c = s[i];
        let l = if 'A' <= c && c <= 'Z' {
            let u = c as u32 + 32;
            proof {
                assert('a' as u32 <= u <= 'z' as u32);
            }
            char_from_ascii_lower(c)
        } else {
            c
        };
        r.push(l);
        assert(ascii_lowercase(s@.take(i + 1)) =~= ascii_lowercase(s@.take(i as int)).push(ascii_lower(s@[i as int])));
        i += 1;
    }
    assert(s@.take(s.len() as int) =~= s@);
    r
}

fn char_from_ascii_lower(c: char) -> (l: char)
    requires
        'A' <= c <= 'Z',
    ensures
        l == ascii_lower(c),
{
    let b = c as u8;
    (b + 32) as char
}


/// Copy of `s[a..b]`.
pub fn bytes_range(s: &[u8], a: usize, b: usize) -> (r: Vec<u8>)
    requires
        a <= b <= s.len(),
    ensures
        r@ == s@.subrange(a as int, b as int),
{
    let mut r: Vec<u8> = Vec::new();
    let mut i = a;
    while i < b
        invariant
            a <= i <= b <= s.len(),
            r@ == s@.subrange(a as int, i as int),
        decreases b - i,
    {
        r.push(s[i]);
        assert(s@.subrange(a as int, i + 1) =~= s@.subrange(a as int, i as int).push(s@[i as int]));
        i += 1;
    }
    r
}


/// Copy of `s[a..b]`.
pub fn chars_range(s: &[char], a: usize, b: usize) -> (r: Vec<char>)
    requires
        a <= b <= s.len(),
    ensures
        r@ == s@.subrange(a as int, b as int),
{
    let mut r: Vec<char> = Vec::new();
    let mut i = a;
    while i < b
        invariant
            a <= i <= b <= s.len(),
            r@ == s@.subrange(a as int, i as int),
        decreases b - i,
    {
        r.push(s[i]);
        assert(s@.subrange(a as int, i + 1) =~= s@.subrange(a as int, i as int).push(s@[i as int]));
        i += 1;
    }
    r
}

/// The pieces of `ps` joined with `sep` between them (`slice::join`).
pub open spec fn join(ps: Seq<Seq<char>>, sep: Seq<char>) -> Seq<char>
    decreases ps.len(),
{
    if ps.len() == 0 {
        Seq::empty()
    } else if ps.len() == 1 {
        ps[0]
    } else {
        join(ps.drop_last(), sep) + sep + ps.last()
    }
}

/// Joins the pieces `from..` of `s` described by `spans`.
pub fn join_spans(
    s: &[char],
    spans: &Vec<(usize, usize)>,
    from: usize,
    sep: &[char],
    Ghost(pieces): Ghost<Seq<Seq<char>>>,
) -> (r: String)
    requires
        spans_describe(s@, spans@, pieces),
        from <= spans.len(),
    ensures
        r@ == join(pieces.skip(from as int), sep@),
{
    let mut out = String::new();
    if from == spans.len() {
        assert(pieces.skip(from as int) =~= Seq::<Seq<char>>::empty());
        return out;
    }
    let (a, b) = spans[from];
    let first = chars_range(s, a, b);
    push_chars(&mut out, &first);
    proof {
        assert(pieces.subrange(from as int, from + 1) =~= seq![pieces[from as int]]);
        assert(out@ =~= pieces[from as int]);
    }
    let mut k = from + 1;
    while k < spans.len()
        invariant
            spans_describe(s@, spans@, pieces),
            from < k <= spans.len(),
            out@ == join(pieces.subrange(from as int, k as int), sep@),
        decreases spans.len() - k,
    {
        let (a, b) = spans[k];
        push_chars(&mut out, sep);
        let piece = chars_range(s, a, b);
        push_chars(&mut out, &piece);
        proof {
            let ps = pieces.subrange(from as int, k + 1);
            assert(ps.drop_last() =~= pieces.subrange(from as int, k as int));
            assert(ps.last() == pieces[k as int]);
        }
        k += 1;
    }
    assert(pieces.subrange(from as int, spans.len() as int) =~= pieces.skip(from as int));
    out
}

/// `s` with every leading repetition of `p` removed (`str::trim_start_matches`).
pub open spec fn trim_prefix_all(s: Seq<char>, p: Seq<char>) -> Seq<char>
    decreases s.len(),
{
    if p.len() > 0 && starts_with(s, p) {
        trim_prefix_all(s.skip(p.len() as int), p)
    } else {
        s
    }
}

/// Start of `trim_prefix_all(s[start..end], p)` within `s`.
pub fn trim_prefix_all_range(s: &[char], start: usize, end: usize, p: &[char]) -> (r: usize)
    requires
        start <= end <= s.len(),
    ensures
        start <= r <= end,
        s@.subrange(r as int, end as int) == trim_prefix_all(s@.subrange(start as int, end as int), p@),
{
    let mut a = start;
    while p.len() > 0 && chars_starts_with(s, a, end, p)
        invariant
            start <= a <= end <= s.len(),
            trim_prefix_all(s@.subrange(a as int, end as int), p@) == trim_prefix_all(
                s@.subrange(start as int, end as int),
                p@,
            ),
        decreases end - a,
    {
        assert(s@.subrange(a as int, end as int).skip(p.len() as int) =~= s@.subrange(a + p.len(), end as int));
        a += p.len();
    }
    a
}


// ---------------------------------------------------------------------------
// Ordering of text (the order of `String`'s `Ord`)
// ---------------------------------------------------------------------------

/// `a` sorts before `b`: code point by code point, a proper prefix first.
pub open spec fn lex_lt(a: Seq<char>, b: Seq<char>) -> bool
    decreases a.len(),
{
    if a.len() == 0 {
        b.len() > 0
    } else if b.len() == 0 {
        false
    } else if a[0] != b[0] {
        a[0] < b[0]
    } else {
        lex_lt(a.drop_first(), b.drop_first())
    }
}

pub proof fn lemma_lex_irreflexive(a: Seq<char>)
    ensures
        !lex_lt(a, a),
    decreases a.len(),
{
    if a.len() > 0 {
        lemma_lex_irreflexive(a.drop_first());
    }
}

pub proof fn lemma_lex_total(a: Seq<char>, b: Seq<char>)
    ensures
        a != b ==> lex_lt(a, b) || lex_lt(b, a),
        !(lex_lt(a, b) && lex_lt(b, a)),
    decreases a.len(),
{
    if a.len() > 0 && b.len() > 0 {
        lemma_lex_total(a.drop_first(), b.drop_first());
        if a[0] == b[0] && a != b {
            assert(a =~= seq![a[0]] + a.drop_first());
            assert(b =~= seq![b[0]] + b.drop_first());
        }
    } else if a.len() == 0 && b.len() == 0 {
        assert(a =~= b);
    }
}

pub proof fn lemma_lex_transitive(a: Seq<char>, b: Seq<char>, c: Seq<char>)
    requires
        lex_lt(a, b),
        lex_lt(b, c),
    ensures
        lex_lt(a, c),
    decreases a.len(),
{
    if a.len() > 0 && b.len() > 0 && c.len() > 0 {
        if a[0] == b[0] && b[0] == c[0] {
            lemma_lex_transitive(a.drop_first(), b.drop_first(), c.drop_first());
        }
    }
}

proof fn lemma_lex_skip(a: Seq<char>, b: Seq<char>, i: int)
    requires
        0 <= i <= a.len(),
        i <= b.len(),
        a.take(i) == b.take(i),
    ensures
        lex_lt(a, b) == lex_lt(a.skip(i), b.skip(i)),
    decreases i,
{
    if i > 0 {
        assert(a[0] == a.take(i)[0]);
        assert(b[0] == b.take(i)[0]);
        assert(a.drop_first().take(i - 1) =~= a.take(i).drop_first());
        assert(b.drop_first().take(i - 1) =~= b.take(i).drop_first());
        lemma_lex_skip(a.drop_first(), b.drop_first(), i - 1);
        assert(a.drop_first().skip(i - 1) =~= a.skip(i));
        assert(b.drop_first().skip(i - 1) =~= b.skip(i));
    } else {
        assert(a.skip(0) =~= a);
        assert(b.skip(0) =~= b);
    }
}

/// `a` sorts before `b`.
pub fn chars_lt(a: &[char], b: &[char]) -> (r: bool)
    ensures
        r == lex_lt(a@, b@),
{
    let mut i: usize = 0;
    while i < a.len() && i < b.len() && a[i] == b[i]
        invariant
            i <= a.len(),
            i <= b.len(),
            a@.take(i as int) == b@.take(i as int),
        decreases a.len() - i,
    {
        assert(a@.take(i + 1) =~= a@.take(i as int).push(a@[i as int]));
        assert(b@.take(i + 1) =~= b@.take(i as int).push(b@[i as int]));
        i += 1;
    }
    proof {
        lemma_lex_skip(a@, b@, i as int);
    }
    if i == a.len() {
        i < b.len()
    } else if i == b.len() {
        false
    } else {
        proof {
            assert(a@.skip(i as int)[0] == a@[i as int]);
            assert(b@.skip(i as int)[0] == b@[i as int]);
        }
        a[i] < b[i]
    }
}

/// Text and line spans of lossily decoded output.
pub fn text_lines(bytes: &[u8]) -> (r: (Vec<char>, Vec<(usize, usize)>))
    ensures
        r.0@ == lossy_chars(bytes@),
        spans_describe(r.0@, r.1@, lines(lossy_chars(bytes@))),
{
    let text_s = lossy_text(bytes);
    let text = chars_of(text_s.as_str());
    let spans = line_spans(&text);
    (text, spans)
}

/// The UTF-8 bytes of `s`.
pub fn text_bytes(s: &str) -> (r: Vec<u8>)
    ensures
        r@ == vstd::utf8::encode_utf8(s@),
{
    let b = s.as_bytes();
    let r = bytes_range(b, 0, b.len());
    assert(b@.subrange(0, b@.len() as int) =~= b@);
    r
}

} // verus!
