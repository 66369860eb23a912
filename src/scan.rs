use vstd::prelude::*;
use crate::token::{
    Delim, Tree, TokenTree, trees_of, lemma_trees_of, push_tree, span_of, copy_trees,
};
use crate::expand::{expand_trees, expand};

verus! {

broadcast use vstd::seq::group_seq_axioms, vstd::std_specs::vec::group_vec_axioms, lemma_trees_of;

/// `s` starts with a repeat marker `#( ... )*`: a `#`, a parenthesised group
/// and a `*`, each ending where the next begins.
pub open spec fn is_marker_at(s: Seq<Tree>) -> bool {
    &&& s.len() >= 3
    &&& s[0] is Punct
    &&& s[0]->ch == '#'
    &&& s[1] is Group
    &&& s[1]->delim == Delim::Paren
    &&& s[2] is Punct
    &&& s[2]->ch == '*'
    &&& span_of(s[0]).hi == span_of(s[1]).lo
    &&& span_of(s[1]).hi == span_of(s[2]).lo
}

/// `body` expanded once for each value of `[start, end)`, in ascending order,
/// the results laid end to end.
pub open spec fn repeat_trees(body: Seq<Tree>, var: Seq<char>, start: int, end: int) -> Seq<Tree>
    decreases end - start,
{
    if start >= end {
        Seq::empty()
    } else {
        expand_trees(body, var, start) + repeat_trees(body, var, start + 1, end)
    }
}

/// The scan for the first repeat marker, left to right and depth first.
/// Where one is found, its inner trees are repeated over the range in its
/// place and the flag is `true`; the rest of the trees stay as they were.
/// Where none is, the trees come back unchanged with the flag `false`.
pub open spec fn scan_trees(s: Seq<Tree>, var: Seq<char>, start: int, end: int) -> (Seq<Tree>, bool)
    decreases s,
{
    if s.len() == 0 {
        (Seq::empty(), false)
    } else if is_marker_at(s) {
        (repeat_trees(s[1]->stream, var, start, end) + s.subrange(3, s.len() as int), true)
    } else {
        let inner = match s[0] {
            Tree::Group { stream, .. } => scan_trees(stream, var, start, end),
            _ => (Seq::empty(), false),
        };
        if inner.1 {
            (
                seq![Tree::Group { delim: s[0]->delim, stream: inner.0, span: span_of(s[0]) }]
                    + s.subrange(1, s.len() as int),
                true,
            )
        } else {
            let rest = scan_trees(s.subrange(1, s.len() as int), var, start, end);
            (seq![s[0]] + rest.0, rest.1)
        }
    }
}

/// The whole expansion: the scan's result where it found a marker, else the
/// body repeated over the range.
pub open spec fn run_trees(body: Seq<Tree>, var: Seq<char>, start: int, end: int) -> Seq<Tree> {
    let scanned = scan_trees(body, var, start, end);
    if scanned.1 {
        scanned.0
    } else {
        repeat_trees(body, var, start, end)
    }
}

pub proof fn lemma_trees_of_add(a: Seq<TokenTree>, b: Seq<TokenTree>)
    ensures
        trees_of(a + b) == trees_of(a) + trees_of(b),
{
    lemma_trees_of(a);
    lemma_trees_of(b);
    lemma_trees_of(a + b);
    assert forall|i: int| 0 <= i < a.len() + b.len() implies #[trigger] trees_of(a + b)[i] == (
    trees_of(a) + trees_of(b))[i] by {
        if i < a.len() {
            assert((a + b)[i] == a[i]);
        } else {
            assert((a + b)[i] == b[i - a.len()]);
        }
    }
    assert(trees_of(a + b) =~= trees_of(a) + trees_of(b));
}

/// Appends fresh copies of `ts[lo..hi]` to `out`.
fn append_copies(out: &mut Vec<TokenTree>, ts: &Vec<TokenTree>, lo: usize, hi: usize)
    requires
        lo <= hi <= ts.len(),
    ensures
        trees_of(final(out)@) == trees_of(old(out)@) + trees_of(ts@).subrange(lo as int, hi as int),
{
    let ghost m = trees_of(ts@);
    let ghost start = trees_of(out@);
    proof {
        lemma_trees_of(ts@);
    }
    let mut i = lo;
    assert(start + m.subrange(lo as int, lo as int) =~= start);
    while i < hi
        invariant
            lo <= i <= hi <= ts.len(),
            m == trees_of(ts@),
            m.len() == ts.len(),
            trees_of(out@) == start + m.subrange(lo as int, i as int),
        decreases hi - i,
    {
        let t = ts[i].deep_copy();
        push_tree(out, t);
        assert(start + m.subrange(lo as int, i + 1) =~= (start + m.subrange(lo as int, i as int)).push(
            m[i as int],
        ));
        i += 1;
    }
}

/// Appends to `out` the expansion of `body` for each value of
/// `[start, end)`, in ascending order.
pub fn repeat(body: &Vec<TokenTree>, var: &String, start: i64, end: i64, out: &mut Vec<TokenTree>)
    ensures
        trees_of(final(out)@) == trees_of(old(out)@) + repeat_trees(
            trees_of(body@),
            var@,
            start as int,
            end as int,
        ),
{
    let ghost b = trees_of(body@);
    let ghost first = trees_of(out@);
    let mut i = start;
    assert(first + repeat_trees(b, var@, start as int, end as int) =~= trees_of(out@)
        + repeat_trees(b, var@, i as int, end as int));
    while i < end
        invariant
            b == trees_of(body@),
            first + repeat_trees(b, var@, start as int, end as int) == trees_of(out@)
                + repeat_trees(b, var@, i as int, end as int),
        decreases end - i,
    {
        let ghost before = trees_of(out@);
        let mut one = expand(body, var, i);
        proof {
            lemma_trees_of_add(out@, one@);
        }
        out.append(&mut one);
        assert(before + repeat_trees(b, var@, i as int, end as int) =~= trees_of(out@)
            + repeat_trees(b, var@, i + 1, end as int));
        i += 1;
    }
    assert(trees_of(out@) + repeat_trees(b, var@, i as int, end as int) =~= trees_of(out@));
}

/// Whether the trees from `idx` on start with a repeat marker.
fn marker_at(ts: &Vec<TokenTree>, idx: usize) -> (r: bool)
    requires
        idx < ts.len(),
    ensures
        r == is_marker_at(trees_of(ts@).subrange(idx as int, ts.len() as int)),
{
    let ghost rest = trees_of(ts@).subrange(idx as int, ts.len() as int);
    proof {
        lemma_trees_of(ts@);
    }
    if ts.len() - idx < 3 {
        return false;
    }
    assert(rest[0] == ts@[idx as int]@ && rest[1] == ts@[idx + 1]@ && rest[2] == ts@[idx + 2]@);
    if !ts[idx].is_punct('#') || !ts[idx + 2].is_punct('*') {
        return false;
    }
    match &ts[idx + 1] {
        TokenTree::Group { delim: Delim::Paren, .. } => {},
        _ => return false,
    }
    ts[idx].span().hi == ts[idx + 1].span().lo && ts[idx + 1].span().hi == ts[idx + 2].span().lo
}

/// Looks for the first repeat marker `#( ... )*` in `ts`, left to right and
/// depth first. Where one is found, returns fresh trees with the marker
/// replaced by its inner trees expanded over `[start, end)`, and `true`;
/// else a fresh copy of `ts` and `false`.
pub fn scan(ts: &Vec<TokenTree>, var: &String, start: i64, end: i64) -> (r: (Vec<TokenTree>, bool))
    ensures
        (trees_of(r.0@), r.1) == scan_trees(trees_of(ts@), var@, start as int, end as int),
        !r.1 ==> trees_of(r.0@) == trees_of(ts@),
    decreases ts,
{
    let ghost m = trees_of(ts@);
    proof {
        lemma_trees_of(ts@);
    }
    let mut idx: usize = 0;
    assert(m.subrange(0, 0) + m.subrange(0, m.len() as int) =~= m);
    while idx < ts.len()
        invariant
            idx <= ts.len(),
            m == trees_of(ts@),
            m.len() == ts.len(),
            scan_trees(m, var@, start as int, end as int).1 == scan_trees(
                m.subrange(idx as int, m.len() as int),
                var@,
                start as int,
                end as int,
            ).1,
            scan_trees(m, var@, start as int, end as int).0 == m.subrange(0, idx as int)
                + scan_trees(m.subrange(idx as int, m.len() as int), var@, start as int, end as int).0,
        decreases ts.len() - idx,
    {
        let ghost rest = m.subrange(idx as int, m.len() as int);
        assert(rest[0] == m[idx as int]);
        if marker_at(ts, idx) {
            let mut out: Vec<TokenTree> = Vec::new();
            append_copies(&mut out, ts, 0, idx);
            match &ts[idx + 1] {
                TokenTree::Group { stream, .. } => {
                    assert(rest[1] == ts@[idx + 1]@);
                    repeat(stream, var, start, end, &mut out);
                },
                _ => {},
            }
            append_copies(&mut out, ts, idx + 3, ts.len());
            assert(rest.subrange(3, rest.len() as int) =~= m.subrange(idx + 3, m.len() as int));
            assert(trees_of(out@) =~= m.subrange(0, idx as int) + scan_trees(
                rest,
                var@,
                start as int,
                end as int,
            ).0);
            return (out, true);
        }
        match &ts[idx] {
            TokenTree::Group { delim, stream, span } => {
                assert(decreases_to!(ts => ts@[idx as int]));
                let (inner, found) = scan(stream, var, start, end);
                if found {
                    let mut out: Vec<TokenTree> = Vec::new();
                    append_copies(&mut out, ts, 0, idx);
                    push_tree(&mut out, TokenTree::Group { delim: *delim, stream: inner, span: *span });
                    append_copies(&mut out, ts, idx + 1, ts.len());
                    assert(rest.subrange(1, rest.len() as int) =~= m.subrange(idx + 1, m.len() as int));
                    assert(trees_of(out@) =~= m.subrange(0, idx as int) + scan_trees(
                        rest,
                        var@,
                        start as int,
                        end as int,
                    ).0);
                    return (out, true);
                }
            },
            _ => {},
        }
        assert(rest.subrange(1, rest.len() as int) =~= m.subrange(idx + 1, m.len() as int));
        assert(m.subrange(0, idx + 1) =~= m.subrange(0, idx as int).push(m[idx as int]));
        assert(m.subrange(0, idx as int) + (seq![m[idx as int]] + scan_trees(
            m.subrange(idx + 1, m.len() as int),
            var@,
            start as int,
            end as int,
        ).0) =~= m.subrange(0, idx + 1) + scan_trees(
            m.subrange(idx + 1, m.len() as int),
            var@,
            start as int,
            end as int,
        ).0);
        idx += 1;
    }
    assert(m.subrange(0, idx as int) =~= m);
    assert(m + Seq::<Tree>::empty() =~= m);
    (copy_trees(ts), false)
}

/// The whole expansion of `body` over `[start, end)`: the scan's result where
/// it found a repeat marker, else the body expanded once per value.
pub fn run(body: &Vec<TokenTree>, var: &String, start: i64, end: i64) -> (r: Vec<TokenTree>)
    ensures
        trees_of(r@) == run_trees(trees_of(body@), var@, start as int, end as int),
{
    let (scanned, found) = scan(body, var, start, end);
    if found {
        scanned
    } else {
        let mut out: Vec<TokenTree> = Vec::new();
        repeat(body, var, start, end, &mut out);
        assert(Seq::<Tree>::empty() + repeat_trees(trees_of(body@), var@, start as int, end as int)
            =~= repeat_trees(trees_of(body@), var@, start as int, end as int));
        out
    }
}

} // verus!
