use vstd::prelude::*;

verus! {

broadcast use vstd::seq::group_seq_axioms, vstd::std_specs::vec::group_vec_axioms;

/// A place in the source text: line and column.
#[derive(Clone, Copy, PartialEq, Eq, Structural, Debug)]
pub struct Loc {
    pub line: usize,
    pub column: usize,
}

/// The stretch of source text that a token covers: from `lo` up to `hi`.
#[derive(Clone, Copy, PartialEq, Eq, Structural, Debug)]
pub struct Span {
    pub lo: Loc,
    pub hi: Loc,
}

impl Span {
    pub fn new(line: usize, lo_column: usize, hi_column: usize) -> (r: Span)
        ensures
            r.lo == (Loc { line, column: lo_column }),
            r.hi == (Loc { line, column: hi_column }),
    {
        Span { lo: Loc { line, column: lo_column }, hi: Loc { line, column: hi_column } }
    }
}

/// The bracket kind of a group.
#[derive(Clone, Copy, PartialEq, Eq, Structural, Debug)]
pub enum Delim {
    Paren,
    Bracket,
    Brace,
}

/// A token tree: a leaf (identifier, literal, punctuation character) or a
/// bracketed group holding a sequence of trees.
#[derive(Debug, PartialEq, Eq)]
pub enum TokenTree {
    Ident { text: String, span: Span },
    Literal { text: String, span: Span },
    Punct { ch: char, span: Span },
    Group { delim: Delim, stream: Vec<TokenTree>, span: Span },
}

/// The mathematical model of a token tree.
pub enum Tree {
    Ident { text: Seq<char>, span: Span },
    Literal { text: Seq<char>, span: Span },
    Punct { ch: char, span: Span },
    Group { delim: Delim, stream: Seq<Tree>, span: Span },
}

pub open spec fn tree_of(t: TokenTree) -> Tree
    decreases t, 0int,
{
    match t {
        TokenTree::Ident { text, span } => Tree::Ident { text: text@, span },
        TokenTree::Literal { text, span } => Tree::Literal { text: text@, span },
        TokenTree::Punct { ch, span } => Tree::Punct { ch, span },
        TokenTree::Group { delim, stream, span } => Tree::Group {
            delim,
            stream: trees_of(stream@),
            span,
        },
    }
}

/// The model of a sequence of token trees, element by element.
pub open spec fn trees_of(s: Seq<TokenTree>) -> Seq<Tree>
    decreases s, 1int,
{
    if s.len() == 0 {
        Seq::empty()
    } else {
        trees_of(s.subrange(0, s.len() - 1)).push(tree_of(s[s.len() - 1]))
    }
}

impl View for TokenTree {
    type V = Tree;

    open spec fn view(&self) -> Tree {
        tree_of(*self)
    }
}

pub broadcast proof fn lemma_trees_of(s: Seq<TokenTree>)
    ensures
        #[trigger] trees_of(s).len() == s.len(),
        forall|i: int| 0 <= i < s.len() ==> trees_of(s)[i] == tree_of(#[trigger] s[i]),
    decreases s.len(),
{
    if s.len() > 0 {
        let p = s.subrange(0, s.len() - 1);
        lemma_trees_of(p);
        assert forall|i: int| 0 <= i < s.len() implies trees_of(s)[i] == tree_of(#[trigger] s[i]) by {
            if i < s.len() - 1 {
                assert(s[i] == p[i]);
            }
        }
    }
}

pub proof fn lemma_trees_of_push(s: Seq<TokenTree>, t: TokenTree)
    ensures
        trees_of(s.push(t)) == trees_of(s).push(tree_of(t)),
{
    assert(s.push(t).subrange(0, s.len() as int) =~= s);
}

/// Appends `t` to `v`, keeping the model in step.
pub fn push_tree(v: &mut Vec<TokenTree>, t: TokenTree)
    ensures
        trees_of(final(v)@) == trees_of(old(v)@).push(tree_of(t)),
{
    proof {
        lemma_trees_of_push(v@, t);
    }
    v.push(t);
}

/// Span of a tree of the model.
pub open spec fn span_of(t: Tree) -> Span {
    match t {
        Tree::Ident { span, .. } => span,
        Tree::Literal { span, .. } => span,
        Tree::Punct { span, .. } => span,
        Tree::Group { span, .. } => span,
    }
}

impl TokenTree {
    pub fn ident(text: &str, span: Span) -> (r: TokenTree)
        ensures
            r@ == (Tree::Ident { text: text@, span }),
    {
        TokenTree::Ident { text: String::from_str(text), span }
    }

    pub fn literal(text: &str, span: Span) -> (r: TokenTree)
        ensures
            r@ == (Tree::Literal { text: text@, span }),
    {
        TokenTree::Literal { text: String::from_str(text), span }
    }

    pub fn punct(ch: char, span: Span) -> (r: TokenTree)
        ensures
            r@ == (Tree::Punct { ch, span }),
    {
        TokenTree::Punct { ch, span }
    }

    pub fn group(delim: Delim, stream: Vec<TokenTree>, span: Span) -> (r: TokenTree)
        ensures
            r@ == (Tree::Group { delim, stream: trees_of(stream@), span }),
    {
        TokenTree::Group { delim, stream, span }
    }

    pub fn span(&self) -> (r: Span)
        ensures
            r == span_of(self@),
    {
        match self {
            TokenTree::Ident { span, .. } => *span,
            TokenTree::Literal { span, .. } => *span,
            TokenTree::Punct { span, .. } => *span,
            TokenTree::Group { span, .. } => *span,
        }
    }

    pub fn is_punct(&self, c: char) -> (r: bool)
        ensures
            r == (self@ is Punct && self@->ch == c),
    {
        match self {
            TokenTree::Punct { ch, .. } => *ch == c,
            _ => false,
        }
    }

    pub fn is_ident_named(&self, name: &String) -> (r: bool)
        ensures
            r == (self@ is Ident && self@->Ident_text == name@),
    {
        match self {
            TokenTree::Ident { text, .. } => text.eq(name),
            _ => false,
        }
    }

    pub fn is_literal(&self) -> (r: bool)
        ensures
            r == self@ is Literal,
    {
        match self {
            TokenTree::Literal { .. } => true,
            _ => false,
        }
    }

    /// A fresh copy of the tree, sharing nothing with it.
    pub fn deep_copy(&self) -> (r: TokenTree)
        ensures
            r@ == self@,
        decreases self,
    {
        match self {
            TokenTree::Ident { text, span } => TokenTree::Ident { text: text.clone(), span: *span },
            TokenTree::Literal { text, span } => TokenTree::Literal {
                text: text.clone(),
                span: *span,
            },
            TokenTree::Punct { ch, span } => TokenTree::Punct { ch: *ch, span: *span },
            TokenTree::Group { delim, stream, span } => {
                let copied = copy_trees(stream);
                TokenTree::Group { delim: *delim, stream: copied, span: *span }
            },
        }
    }
}

/// A fresh copy of a sequence of trees.
pub fn copy_trees(ts: &Vec<TokenTree>) -> (r: Vec<TokenTree>)
    ensures
        trees_of(r@) == trees_of(ts@),
    decreases ts,
{
    let mut r: Vec<TokenTree> = Vec::new();
    let mut i: usize = 0;
    while i < ts.len()
        invariant
            i <= ts.len(),
            trees_of(r@) == trees_of(ts@.subrange(0, i as int)),
        decreases ts.len() - i,
    {
        let t = ts[i].deep_copy();
        push_tree(&mut r, t);
        assert(ts@.subrange(0, i + 1) =~= ts@.subrange(0, i as int).push(ts@[i as int]));
        proof {
            lemma_trees_of_push(ts@.subrange(0, i as int), ts@[i as int]);
        }
        i += 1;
    }
    assert(ts@.subrange(0, ts.len() as int) =~= ts@);
    r
}

} // verus!
