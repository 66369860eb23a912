use vstd::prelude::*;
use vstd::string::StringExecFns;
use crate::token::{Tree, TokenTree, trees_of, lemma_trees_of, push_tree, span_of};

verus! {

broadcast use vstd::seq::group_seq_axioms, vstd::std_specs::vec::group_vec_axioms, lemma_trees_of;

/// The character of a decimal digit.
pub open spec fn digit_char(d: nat) -> char {
    seq!['0', '1', '2', '3', '4', '5', '6', '7', '8', '9'][d as int]
}

/// The decimal digits of a natural number, most significant first.
pub open spec fn digits_of(n: nat) -> Seq<char>
    decreases n,
{
    if n < 10 {
        seq![digit_char(n)]
    } else {
        digits_of(n / 10).push(digit_char(n % 10))
    }
}

/// An integer written in decimal, with a leading `-` when negative.
pub open spec fn decimal_text(n: int) -> Seq<char> {
    if n < 0 {
        seq!['-'] + digits_of((-n) as nat)
    } else {
        digits_of(n as nat)
    }
}

/// Relies on `proc_macro2::Literal::i64_unsuffixed`: the literal's text is the
/// value written in decimal, with no suffix.
#[verifier::external_body]
fn unsuffixed_literal_text(n: i64) -> (r: String)
    ensures
        r@ == decimal_text(n as int),
{
    proc_macro2::Literal::i64_unsuffixed(n).to_string()
}

/// The first three trees of `s` are an identifier, a `#` and the loop
/// variable, each ending where the next begins.
pub open spec fn is_concat_at(s: Seq<Tree>, var: Seq<char>) -> bool {
    &&& s.len() >= 3
    &&& s[0] is Ident
    &&& s[1] is Punct
    &&& s[1]->ch == '#'
    &&& s[2] is Ident
    &&& s[2]->Ident_text == var
    &&& span_of(s[0]).hi == span_of(s[1]).lo
    &&& span_of(s[1]).hi == span_of(s[2]).lo
}

/// One value of the loop substituted into a sequence of trees: a joined
/// `prefix#var` becomes one identifier, the variable alone a literal.
pub open spec fn expand_trees(s: Seq<Tree>, var: Seq<char>, n: int) -> Seq<Tree>
    decreases s, 1int,
{
    if s.len() == 0 {
        Seq::empty()
    } else if is_concat_at(s, var) {
        seq![Tree::Ident { text: s[0]->Ident_text + decimal_text(n), span: span_of(s[0]) }]
            + expand_trees(s.subrange(3, s.len() as int), var, n)
    } else {
        seq![expand_tree(s[0], var, n)] + expand_trees(s.subrange(1, s.len() as int), var, n)
    }
}

/// One value of the loop substituted into a single tree.
pub open spec fn expand_tree(t: Tree, var: Seq<char>, n: int) -> Tree
    decreases t, 0int,
{
    match t {
        Tree::Group { delim, stream, span } => Tree::Group {
            delim,
            stream: expand_trees(stream, var, n),
            span,
        },
        Tree::Ident { text, span } => if text == var {
            Tree::Literal { text: decimal_text(n), span }
        } else {
            t
        },
        _ => t,
    }
}

/// Whether the trees from `idx` on start with a joined `prefix#var`.
fn concat_at(ts: &Vec<TokenTree>, idx: usize, var: &String) -> (r: bool)
    requires
        idx < ts.len(),
    ensures
        r == is_concat_at(trees_of(ts@).subrange(idx as int, ts.len() as int), var@),
{
    let ghost rest = trees_of(ts@).subrange(idx as int, ts.len() as int);
    proof {
        lemma_trees_of(ts@);
    }
    if ts.len() - idx < 3 {
        return false;
    }
    assert(rest[0] == ts@[idx as int]@ && rest[1] == ts@[idx + 1]@ && rest[2] == ts@[idx + 2]@);
    match &ts[idx] {
        TokenTree::Ident { .. } => {},
        _ => return false,
    }
    if !ts[idx + 1].is_punct('#') || !ts[idx + 2].is_ident_named(var) {
        return false;
    }
    ts[idx].span().hi == ts[idx + 1].span().lo && ts[idx + 1].span().hi == ts[idx + 2].span().lo
}

/// Substitutes the value `n` of the loop variable `var` into `ts`, building
/// fresh trees.
pub fn expand(ts: &Vec<TokenTree>, var: &String, n: i64) -> (r: Vec<TokenTree>)
    ensures
        trees_of(r@) == expand_trees(trees_of(ts@), var@, n as int),
    decreases ts,
{
    let ghost m = trees_of(ts@);
    let mut ret: Vec<TokenTree> = Vec::new();
    let mut idx: usize = 0;
    assert(m.subrange(0, m.len() as int) =~= m);
    assert(trees_of(ret@) + m =~= m);
    while idx < ts.len()
        invariant
            idx <= ts.len(),
            m == trees_of(ts@),
            expand_trees(m, var@, n as int) == trees_of(ret@) + expand_trees(
                m.subrange(idx as int, m.len() as int),
                var@,
                n as int,
            ),
        decreases ts.len() - idx,
    {
        let ghost rest = m.subrange(idx as int, m.len() as int);
        let ghost before = trees_of(ret@);
        let concat = concat_at(ts, idx, var);
        let step: usize;
        let item: TokenTree;
        match &ts[idx] {
            TokenTree::Group { delim, stream, span } => {
                assert(decreases_to!(ts => ts@[idx as int]));
                let inner = expand(stream, var, n);
                item = TokenTree::Group { delim: *delim, stream: inner, span: *span };
                step = 1;
                assert(!concat && item@ == expand_tree(rest[0], var@, n as int));
            },
            TokenTree::Ident { text, span } => {
                if concat {
                    let mut joined = text.clone();
                    let digits = unsuffixed_literal_text(n);
                    joined.append(digits.as_str());
                    item = TokenTree::Ident { text: joined, span: *span };
                    step = 3;
                    assert(item@ == (Tree::Ident {
                        text: rest[0]->Ident_text + decimal_text(n as int),
                        span: span_of(rest[0]),
                    }));
                } else if text.eq(var) {
                    item = TokenTree::Literal { text: unsuffixed_literal_text(n), span: *span };
                    step = 1;
                    assert(item@ == expand_tree(rest[0], var@, n as int));
                } else {
                    item = ts[idx].deep_copy();
                    step = 1;
                }
            },
            _ => {
                item = ts[idx].deep_copy();
                step = 1;
            },
        }
        assert(rest[0] == ts@[idx as int]@);
        assert(rest.subrange(step as int, rest.len() as int) =~= m.subrange(
            idx + step,
            m.len() as int,
        ));
        assert(expand_trees(rest, var@, n as int) == seq![item@] + expand_trees(
            m.subrange(idx + step, m.len() as int),
            var@,
            n as int,
        ));
        push_tree(&mut ret, item);
        assert(before + (seq![item@] + expand_trees(
            m.subrange(idx + step, m.len() as int),
            var@,
            n as int,
        )) =~= before.push(item@) + expand_trees(
            m.subrange(idx + step, m.len() as int),
            var@,
            n as int,
        ));
        idx = idx + step;
    }
    assert(m.subrange(idx as int, m.len() as int) =~= Seq::<Tree>::empty());
    assert(trees_of(ret@) + Seq::<Tree>::empty() =~= trees_of(ret@));
    ret
}

} // verus!
