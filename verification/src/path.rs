//! Unix paths as `Path` sees them: their components, and the order and
//! equality that compare paths component by component.
use crate::text::{bytes_eq, bytes_range, lemma_split_nonempty, split, split_bytes};
use vstd::prelude::*;

verus! {

/// A piece between separators that names an entry: not empty and not `.`.
pub open spec fn names_entry(piece: Seq<u8>) -> bool {
    piece.len() > 0 && piece != seq![46u8]
}

pub open spec fn entry_pred() -> spec_fn(Seq<u8>) -> bool {
    |piece: Seq<u8>| names_entry(piece)
}

/// The components of the Unix path `p`: the root `/` where `p` starts at
/// it, a leading `.` where `p` starts with the piece `.`, then each piece
/// between separators that names an entry. Repeated separators, `.` after
/// the start and a trailing separator leave no component.
pub open spec fn components(p: Seq<u8>) -> Seq<Seq<u8>> {
    let pieces = split(p, 47u8);
    let named = pieces.filter(entry_pred());
    if p.len() > 0 && p[0] == 47u8 {
        seq![seq![47u8]] + named
    } else if pieces[0] == seq![46u8] {
        seq![seq![46u8]] + named
    } else {
        named
    }
}

/// The components that lead `components(p)`: the root or the leading `.`.
pub open spec fn leading_component(p: Seq<u8>) -> Seq<Seq<u8>> {
    if p.len() > 0 && p[0] == 47u8 {
        seq![seq![47u8]]
    } else if split(p, 47u8)[0] == seq![46u8] {
        seq![seq![46u8]]
    } else {
        Seq::empty()
    }
}

pub open spec fn parts_view(v: Seq<Vec<u8>>) -> Seq<Seq<u8>> {
    v.map_values(|x: Vec<u8>| x@)
}

fn one_byte(b: u8) -> (r: Vec<u8>)
    ensures
        r@ == seq![b],
{
    let mut r: Vec<u8> = Vec::new();
    r.push(b);
    r
}

/// The components of the Unix path `p`.
pub fn path_components(p: &[u8]) -> (r: Vec<Vec<u8>>)
    ensures
        parts_view(r@) == components(p@),
{
    let spans = split_bytes(p, 47u8);
    let ghost pieces = split(p@, 47u8);
    proof {
        lemma_split_nonempty(p@, 47u8);
    }
    let mut out: Vec<Vec<u8>> = Vec::new();
    if p.len() > 0 && p[0] == 47u8 {
        out.push(one_byte(47u8));
    } else {
        let (a, b) = spans[0];
        proof {
            assert(spans@[0].0 <= spans@[0].1 <= p@.len());
            assert(p@.subrange(a as int, b as int) == pieces[0]);
        }
        if b > a && b - a == 1 && p[a] == 46u8 {
            out.push(one_byte(46u8));
            proof {
                assert(pieces[0] =~= seq![46u8]);
            }
        } else {
            proof {
                if pieces[0] == seq![46u8] {
                    assert(p@.subrange(a as int, b as int).len() == 1);
                    assert(p@.subrange(a as int, b as int)[0] == p@[a as int]);
                }
            }
        }
    }
    proof {
        assert(parts_view(out@) =~= leading_component(p@));
        assert(pieces.take(0) =~= Seq::<Seq<u8>>::empty());
        reveal(Seq::filter);
        assert(leading_component(p@) + pieces.take(0).filter(entry_pred()) =~= leading_component(p@));
    }
    let ghost lead = leading_component(p@);
    let mut i: usize = 0;
    while i < spans.len()
        invariant
            i <= spans.len(),
            spans.len() == pieces.len(),
            pieces == split(p@, 47u8),
            crate::text::spans_describe(p@, spans@, pieces),
            lead == leading_component(p@),
            parts_view(out@) == lead + pieces.take(i as int).filter(entry_pred()),
        decreases spans.len() - i,
    {
        let (a, b) = spans[i];
        let piece = bytes_range(p, a, b);
        proof {
            assert(spans@[i as int].0 <= spans@[i as int].1 <= p@.len());
            assert(piece@ == pieces[i as int]);
            assert(pieces.take(i + 1) =~= pieces.take(i as int).push(pieces[i as int]));
            pieces.take(i as int).lemma_filter_push(pieces[i as int], entry_pred());
        }
        let named = piece.len() > 0 && !(piece.len() == 1 && piece[0] == 46u8);
        proof {
            if piece@ == seq![46u8] {
                assert(piece@[0] == 46u8);
            }
            if piece.len() == 1 && piece@[0] == 46u8 {
                assert(piece@ =~= seq![46u8]);
            }
            assert(named == names_entry(pieces[i as int]));
        }
        let ghost before = parts_view(out@);
        if named {
            out.push(piece);
            proof {
                assert(parts_view(out@) =~= before.push(pieces[i as int]));
                assert(lead + pieces.take(i as int).filter(entry_pred()).push(pieces[i as int]) =~= (lead
                    + pieces.take(i as int).filter(entry_pred())).push(pieces[i as int]));
            }
        }
        i += 1;
    }
    proof {
        assert(pieces.take(spans.len() as int) =~= pieces);
        assert(parts_view(out@) =~= components(p@));
    }
    out
}


// ---------------------------------------------------------------------------
// Sequences of integers
// ---------------------------------------------------------------------------

/// `a` sorts before `b`: element by element, a proper prefix first.
pub open spec fn int_lex_lt(a: Seq<int>, b: Seq<int>) -> bool
    decreases a.len(),
{
    if a.len() == 0 {
        b.len() > 0
    } else if b.len() == 0 {
        false
    } else if a[0] != b[0] {
        a[0] < b[0]
    } else {
        int_lex_lt(a.drop_first(), b.drop_first())
    }
}

pub proof fn lemma_int_lex_irreflexive(a: Seq<int>)
    ensures
        !int_lex_lt(a, a),
    decreases a.len(),
{
    if a.len() > 0 {
        lemma_int_lex_irreflexive(a.drop_first());
    }
}

pub proof fn lemma_int_lex_total(a: Seq<int>, b: Seq<int>)
    ensures
        a != b ==> int_lex_lt(a, b) || int_lex_lt(b, a),
        !(int_lex_lt(a, b) && int_lex_lt(b, a)),
    decreases a.len(),
{
    if a.len() > 0 && b.len() > 0 {
        lemma_int_lex_total(a.drop_first(), b.drop_first());
        if a[0] == b[0] && a != b {
            assert(a =~= seq![a[0]] + a.drop_first());
            assert(b =~= seq![b[0]] + b.drop_first());
        }
    } else if a.len() == 0 && b.len() == 0 {
        assert(a =~= b);
    }
}

pub proof fn lemma_int_lex_transitive(a: Seq<int>, b: Seq<int>, c: Seq<int>)
    requires
        int_lex_lt(a, b),
        int_lex_lt(b, c),
    ensures
        int_lex_lt(a, c),
    decreases a.len(),
{
    if a.len() > 0 && b.len() > 0 && c.len() > 0 {
        if a[0] == b[0] && b[0] == c[0] {
            lemma_int_lex_transitive(a.drop_first(), b.drop_first(), c.drop_first());
        }
    }
}

proof fn lemma_int_lex_skip(a: Seq<int>, b: Seq<int>, i: int)
    requires
        0 <= i <= a.len(),
        i <= b.len(),
        a.take(i) == b.take(i),
    ensures
        int_lex_lt(a, b) == int_lex_lt(a.skip(i), b.skip(i)),
    decreases i,
{
    if i > 0 {
        assert(a[0] == a.take(i)[0]);
        assert(b[0] == b.take(i)[0]);
        assert(a.drop_first().take(i - 1) =~= a.take(i).drop_first());
        assert(b.drop_first().take(i - 1) =~= b.take(i).drop_first());
        lemma_int_lex_skip(a.drop_first(), b.drop_first(), i - 1);
        assert(a.drop_first().skip(i - 1) =~= a.skip(i));
        assert(b.drop_first().skip(i - 1) =~= b.skip(i));
    } else {
        assert(a.skip(0) =~= a);
        assert(b.skip(0) =~= b);
    }
}

pub open spec fn widen(v: Seq<u16>) -> Seq<int> {
    v.map_values(|x: u16| x as int)
}

/// Whether the numbers `a` sort before `b`.
fn ranks_less(a: &Vec<u16>, b: &Vec<u16>) -> (r: bool)
    ensures
        r == int_lex_lt(widen(a@), widen(b@)),
{
    let ghost wa = widen(a@);
    let ghost wb = widen(b@);
    let mut i: usize = 0;
    while i < a.len() && i < b.len() && a[i] == b[i]
        invariant
            i <= a.len(),
            i <= b.len(),
            wa == widen(a@),
            wb == widen(b@),
            wa.take(i as int) == wb.take(i as int),
        decreases a.len() - i,
    {
        assert(wa.take(i + 1) =~= wa.take(i as int).push(wa[i as int]));
        assert(wb.take(i + 1) =~= wb.take(i as int).push(wb[i as int]));
        i += 1;
    }
    proof {
        lemma_int_lex_skip(wa, wb, i as int);
    }
    if i == a.len() {
        i < b.len()
    } else if i == b.len() {
        false
    } else {
        proof {
            assert(wa.skip(i as int)[0] == a@[i as int] as int);
            assert(wb.skip(i as int)[0] == b@[i as int] as int);
        }
        a[i] < b[i]
    }
}

// ---------------------------------------------------------------------------
// The order of components and paths
// ---------------------------------------------------------------------------

/// The rank of a component as `Path` orders components: the root first,
/// then `.`, then `..`, then every other name, names compared byte by byte.
pub open spec fn comp_rank(c: Seq<u8>) -> Seq<int> {
    if c == seq![47u8] {
        seq![0int]
    } else if c == seq![46u8] {
        seq![1int]
    } else if c == seq![46u8, 46u8] {
        seq![2int]
    } else {
        seq![3int] + c.map_values(|b: u8| b as int)
    }
}

/// Component `a` sorts before component `b`.
pub open spec fn comp_lt(a: Seq<u8>, b: Seq<u8>) -> bool {
    int_lex_lt(comp_rank(a), comp_rank(b))
}

proof fn lemma_comp_rank_injective(a: Seq<u8>, b: Seq<u8>)
    requires
        comp_rank(a) == comp_rank(b),
    ensures
        a == b,
{
    let ra = comp_rank(a);
    let rb = comp_rank(b);
    if ra[0] == 3 {
        let ma = a.map_values(|x: u8| x as int);
        let mb = b.map_values(|x: u8| x as int);
        assert(ra.drop_first() =~= ma);
        assert(rb.drop_first() =~= mb);
        assert(a.len() == b.len());
        assert forall|i: int| 0 <= i < a.len() implies a[i] == b[i] by {
            assert(ma[i] == mb[i]);
        }
        assert(a =~= b);
    }
}

proof fn lemma_comp_order(a: Seq<u8>, b: Seq<u8>, c: Seq<u8>)
    ensures
        !comp_lt(a, a),
        a != b ==> comp_lt(a, b) || comp_lt(b, a),
        !(comp_lt(a, b) && comp_lt(b, a)),
        comp_lt(a, b) && comp_lt(b, c) ==> comp_lt(a, c),
{
    lemma_int_lex_irreflexive(comp_rank(a));
    lemma_int_lex_total(comp_rank(a), comp_rank(b));
    if comp_rank(a) == comp_rank(b) {
        lemma_comp_rank_injective(a, b);
    }
    if comp_lt(a, b) && comp_lt(b, c) {
        lemma_int_lex_transitive(comp_rank(a), comp_rank(b), comp_rank(c));
    }
}

/// Components `a` sort before components `b`: component by component, a
/// proper prefix first. This is how `Path`'s `Ord` orders paths.
pub open spec fn parts_lt(a: Seq<Seq<u8>>, b: Seq<Seq<u8>>) -> bool
    decreases a.len(),
{
    if a.len() == 0 {
        b.len() > 0
    } else if b.len() == 0 {
        false
    } else if a[0] != b[0] {
        comp_lt(a[0], b[0])
    } else {
        parts_lt(a.drop_first(), b.drop_first())
    }
}

/// `parts_lt` is a strict total order.
pub proof fn lemma_parts_order(a: Seq<Seq<u8>>, b: Seq<Seq<u8>>, c: Seq<Seq<u8>>)
    ensures
        !parts_lt(a, a),
        a != b ==> parts_lt(a, b) || parts_lt(b, a),
        !(parts_lt(a, b) && parts_lt(b, a)),
        parts_lt(a, b) && parts_lt(b, c) ==> parts_lt(a, c),
    decreases a.len(),
{
    if a.len() > 0 && b.len() > 0 && c.len() > 0 {
        lemma_parts_order(a.drop_first(), b.drop_first(), c.drop_first());
        lemma_comp_order(a[0], b[0], c[0]);
        lemma_comp_order(b[0], a[0], c[0]);
        lemma_comp_order(a[0], c[0], b[0]);
        if a[0] == b[0] && a != b {
            assert(a =~= seq![a[0]] + a.drop_first());
            assert(b =~= seq![b[0]] + b.drop_first());
        }
    } else if a.len() > 0 && b.len() > 0 {
        lemma_parts_order(a.drop_first(), b.drop_first(), b.drop_first());
        lemma_comp_order(a[0], b[0], b[0]);
        if a[0] == b[0] && a != b {
            assert(a =~= seq![a[0]] + a.drop_first());
            assert(b =~= seq![b[0]] + b.drop_first());
        }
    } else if a.len() > 0 {
        lemma_parts_order(a.drop_first(), a.drop_first(), a.drop_first());
        lemma_comp_order(a[0], a[0], a[0]);
    } else if b.len() == 0 {
        assert(a =~= b);
    }
}

proof fn lemma_parts_skip(a: Seq<Seq<u8>>, b: Seq<Seq<u8>>, i: int)
    requires
        0 <= i <= a.len(),
        i <= b.len(),
        a.take(i) == b.take(i),
    ensures
        parts_lt(a, b) == parts_lt(a.skip(i), b.skip(i)),
    decreases i,
{
    if i > 0 {
        assert(a[0] == a.take(i)[0]);
        assert(b[0] == b.take(i)[0]);
        assert(a.drop_first().take(i - 1) =~= a.take(i).drop_first());
        assert(b.drop_first().take(i - 1) =~= b.take(i).drop_first());
        lemma_parts_skip(a.drop_first(), b.drop_first(), i - 1);
        assert(a.drop_first().skip(i - 1) =~= a.skip(i));
        assert(b.drop_first().skip(i - 1) =~= b.skip(i));
    } else {
        assert(a.skip(0) =~= a);
        assert(b.skip(0) =~= b);
    }
}

/// The ranks of a component.
fn comp_ranks(c: &[u8]) -> (r: Vec<u16>)
    ensures
        widen(r@) == comp_rank(c@),
{
    let mut r: Vec<u16> = Vec::new();
    if c.len() == 1 && c[0] == 47u8 {
        assert(c@ =~= seq![47u8]);
        r.push(0);
        assert(widen(r@) =~= seq![0int]);
        return r;
    }
    if c.len() == 1 && c[0] == 46u8 {
        assert(c@ =~= seq![46u8]);
        r.push(1);
        assert(widen(r@) =~= seq![1int]);
        return r;
    }
    if c.len() == 2 && c[0] == 46u8 && c[1] == 46u8 {
        assert(c@ =~= seq![46u8, 46u8]);
        r.push(2);
        assert(widen(r@) =~= seq![2int]);
        return r;
    }
    assert(c@ != seq![47u8] && c@ != seq![46u8] && c@ != seq![46u8, 46u8]) by {
        if c@ == seq![47u8] || c@ == seq![46u8] {
            assert(c@[0] == c[0]);
        }
        if c@ == seq![46u8, 46u8] {
            assert(c@[0] == c[0] && c@[1] == c[1]);
        }
    }
    r.push(3);
    let mut i: usize = 0;
    while i < c.len()
        invariant
            i <= c.len(),
            widen(r@) == seq![3int] + c@.take(i as int).map_values(|b: u8| b as int),
        decreases c.len() - i,
    {
        let ghost before = r@;
        r.push(c[i] as u16);
        proof {
            assert(r@ == before.push(c@[i as int] as u16));
            assert(widen(r@) =~= widen(before).push(c@[i as int] as int));
            assert(c@.take(i + 1) =~= c@.take(i as int).push(c@[i as int]));
            assert(c@.take(i + 1).map_values(|b: u8| b as int) =~= c@.take(i as int).map_values(|b: u8| b as int).push(
                c@[i as int] as int,
            ));
            assert(widen(r@) =~= seq![3int] + c@.take(i + 1).map_values(|b: u8| b as int));
        }
        i += 1;
    }
    assert(c@.take(c.len() as int) =~= c@);
    r
}

/// Whether component `a` sorts before component `b`.
pub fn comp_less(a: &[u8], b: &[u8]) -> (r: bool)
    ensures
        r == comp_lt(a@, b@),
{
    let ra = comp_ranks(a);
    let rb = comp_ranks(b);
    ranks_less(&ra, &rb)
}

/// Whether the components `a` and `b` are the same.
pub fn parts_eq(a: &Vec<Vec<u8>>, b: &Vec<Vec<u8>>) -> (r: bool)
    ensures
        r == (parts_view(a@) == parts_view(b@)),
{
    let ghost va = parts_view(a@);
    let ghost vb = parts_view(b@);
    if a.len() != b.len() {
        assert(va.len() != vb.len());
        return false;
    }
    let mut i: usize = 0;
    while i < a.len()
        invariant
            i <= a.len() == b.len(),
            va == parts_view(a@),
            vb == parts_view(b@),
            forall|j: int| 0 <= j < i ==> va[j] == vb[j],
        decreases a.len() - i,
    {
        if !bytes_eq(a[i].as_slice(), b[i].as_slice()) {
            assert(va[i as int] != vb[i as int]);
            return false;
        }
        i += 1;
    }
    assert(va =~= vb);
    true
}

/// Whether the components `a` sort before the components `b`.
pub fn parts_less(a: &Vec<Vec<u8>>, b: &Vec<Vec<u8>>) -> (r: bool)
    ensures
        r == parts_lt(parts_view(a@), parts_view(b@)),
{
    let ghost va = parts_view(a@);
    let ghost vb = parts_view(b@);
    let mut i: usize = 0;
    while i < a.len() && i < b.len() && bytes_eq(a[i].as_slice(), b[i].as_slice())
        invariant
            i <= a.len(),
            i <= b.len(),
            va == parts_view(a@),
            vb == parts_view(b@),
            va.take(i as int) == vb.take(i as int),
        decreases a.len() - i,
    {
        assert(va.take(i + 1) =~= va.take(i as int).push(va[i as int]));
        assert(vb.take(i + 1) =~= vb.take(i as int).push(vb[i as int]));
        i += 1;
    }
    proof {
        lemma_parts_skip(va, vb, i as int);
    }
    if i == a.len() {
        i < b.len()
    } else if i == b.len() {
        false
    } else {
        proof {
            assert(va.skip(i as int)[0] == a@[i as int]@);
            assert(vb.skip(i as int)[0] == b@[i as int]@);
        }
        comp_less(a[i].as_slice(), b[i].as_slice())
    }
}

/// Whether the paths `a` and `b` have the same components, as `Path`'s
/// `==` compares them.
pub fn path_eq(a: &[u8], b: &[u8]) -> (r: bool)
    ensures
        r == (components(a@) == components(b@)),
{
    let ca = path_components(a);
    let cb = path_components(b);
    parts_eq(&ca, &cb)
}

/// Whether the path `a` sorts before `b`, as `Path`'s `Ord` orders them.
pub fn path_less(a: &[u8], b: &[u8]) -> (r: bool)
    ensures
        r == parts_lt(components(a@), components(b@)),
{
    let ca = path_components(a);
    let cb = path_components(b);
    parts_less(&ca, &cb)
}

} // verus!
