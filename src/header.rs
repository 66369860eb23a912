use vstd::prelude::*;
use vstd::string::StringExecFns;
use crate::token::{Delim, Tree, TokenTree, trees_of, lemma_trees_of, span_of, copy_trees};

verus! {

broadcast use vstd::seq::group_seq_axioms, vstd::std_specs::vec::group_vec_axioms, lemma_trees_of;

/// What the header parser expected where it stopped.
#[derive(Clone, Copy, PartialEq, Eq, Structural, Debug)]
pub enum Expected {
    /// The loop variable: an identifier that is not a keyword.
    Ident,
    /// The keyword `in`.
    KeywordIn,
    /// An integer literal, maybe negated, whose value fits an `i64`.
    IntLiteral,
    /// The range separator `..`.
    DotDot,
    /// The body in braces.
    BracedBody,
    /// Nothing after the body.
    End,
}

/// The header `var in start..end { body }` does not hold: `position` is the
/// index of the token where parsing stopped (the input's length at its end).
#[derive(Clone, Copy, PartialEq, Eq, Structural, Debug)]
pub struct MalformedHeader {
    pub position: usize,
    pub expected: Expected,
}

/// A parsed header: the loop variable, the range `[start, end)` and the body.
#[derive(Debug)]
pub struct ExpansionRequest {
    pub var: String,
    pub start: i64,
    pub end: i64,
    pub body: Vec<TokenTree>,
}

/// The value of an integer literal's text, where syn reads it as one and
/// the value fits an `i64`.
pub uninterp spec fn int_literal_value(s: Seq<char>) -> Option<i64>;

/// Whether syn accepts the text as an identifier (a keyword or `_` it does not).
pub uninterp spec fn accepted_as_ident(s: Seq<char>) -> bool;

/// Relies on `syn::parse_str::<syn::LitInt>`, which reads an integer literal
/// (with an optional leading `-`), and `syn::LitInt::base10_parse::<i64>`,
/// which gives its value when it fits.
#[verifier::external_body]
fn parse_int_literal(text: &str) -> (r: Option<i64>)
    ensures
        r == int_literal_value(text@),
{
    match syn::parse_str::<syn::LitInt>(text) {
        Ok(lit) => lit.base10_parse::<i64>().ok(),
        Err(_) => None,
    }
}

/// Relies on `syn::parse_str::<syn::Ident>`, whose parser turns down keywords
/// and `_`.
#[verifier::external_body]
fn ident_accepted(text: &str) -> (r: bool)
    ensures
        r == accepted_as_ident(text@),
{
    syn::parse_str::<syn::Ident>(text).is_ok()
}

/// The text of a range bound at `i`: a literal, or `-` and a literal; with
/// the number of tokens it takes.
pub open spec fn bound_text(s: Seq<Tree>, i: int) -> Option<(Seq<char>, int)> {
    if 0 <= i < s.len() && s[i] is Literal {
        Some((s[i]->Literal_text, 1))
    } else if 0 <= i && i + 1 < s.len() && s[i] is Punct && s[i]->ch == '-' && s[i + 1] is Literal {
        Some((seq!['-'] + s[i + 1]->Literal_text, 2))
    } else {
        None
    }
}

/// The value of the range bound at `i`, with the number of tokens it takes.
pub open spec fn bound_value(s: Seq<Tree>, i: int) -> Option<(i64, int)> {
    match bound_text(s, i) {
        Some((t, k)) => match int_literal_value(t) {
            Some(v) => Some((v, k)),
            None => None,
        },
        None => None,
    }
}

/// A `..` at `j`: two `.` with nothing between them.
pub open spec fn is_dotdot_at(s: Seq<Tree>, j: int) -> bool {
    &&& 0 <= j
    &&& j + 1 < s.len()
    &&& s[j] is Punct
    &&& s[j]->ch == '.'
    &&& s[j + 1] is Punct
    &&& s[j + 1]->ch == '.'
    &&& span_of(s[j]).hi == span_of(s[j + 1]).lo
}

/// The error for a header that breaks the grammar at `position`.
pub open spec fn header_error(position: int, expected: Expected) -> MalformedHeader {
    MalformedHeader { position: position as usize, expected }
}

/// The header grammar `Ident "in" Int ".." Int "{" body "}"`, with nothing
/// after the body. On success: the variable's text, the two bounds and the
/// body.
pub open spec fn parse_header_spec(s: Seq<Tree>) -> Result<
    (Seq<char>, i64, i64, Seq<Tree>),
    MalformedHeader,
> {
    if !(s.len() > 0 && s[0] is Ident && accepted_as_ident(s[0]->Ident_text)) {
        Err(header_error(0, Expected::Ident))
    } else if !(s.len() > 1 && s[1] is Ident && s[1]->Ident_text == "in"@) {
        Err(header_error(1, Expected::KeywordIn))
    } else {
        match bound_value(s, 2) {
            None => Err(header_error(2, Expected::IntLiteral)),
            Some((a, k)) => {
                let j = 2 + k;
                if !is_dotdot_at(s, j) {
                    Err(header_error(j, Expected::DotDot))
                } else {
                    match bound_value(s, j + 2) {
                        None => Err(header_error(j + 2, Expected::IntLiteral)),
                        Some((b, k2)) => {
                            let m = j + 2 + k2;
                            if !(m < s.len() && s[m] is Group && s[m]->delim == Delim::Brace) {
                                Err(header_error(m, Expected::BracedBody))
                            } else if m + 1 < s.len() {
                                Err(header_error(m + 1, Expected::End))
                            } else {
                                Ok((s[0]->Ident_text, a, b, s[m]->stream))
                            }
                        },
                    }
                }
            },
        }
    }
}

fn int_literal_at(ts: &Vec<TokenTree>, i: usize, negative: bool) -> (r: Option<i64>)
    requires
        i < ts.len(),
        trees_of(ts@)[i as int] is Literal,
    ensures
        r == int_literal_value(
            if negative {
                seq!['-'] + trees_of(ts@)[i as int]->Literal_text
            } else {
                trees_of(ts@)[i as int]->Literal_text
            },
        ),
{
    proof {
        lemma_trees_of(ts@);
    }
    match &ts[i] {
        TokenTree::Literal { text, .. } => {
            if negative {
                let mut neg = String::from_str("-");
                proof {
                    reveal_strlit("-");
                }
                neg.append(text.as_str());
                assert(neg@ =~= seq!['-'] + text@);
                parse_int_literal(neg.as_str())
            } else {
                parse_int_literal(text.as_str())
            }
        },
        _ => None,
    }
}

/// Reads the range bound at `i`.
fn parse_bound(ts: &Vec<TokenTree>, i: usize) -> (r: Option<(i64, usize)>)
    ensures
        match r {
            Some((v, k)) => bound_value(trees_of(ts@), i as int) == Some((v, k as int)),
            None => bound_value(trees_of(ts@), i as int) is None,
        },
{
    proof {
        lemma_trees_of(ts@);
    }
    if i >= ts.len() {
        return None;
    }
    match &ts[i] {
        TokenTree::Literal { .. } => match int_literal_at(ts, i, false) {
            Some(v) => Some((v, 1)),
            None => None,
        },
        TokenTree::Punct { ch, .. } => {
            if *ch == '-' && i + 1 < ts.len() && ts[i + 1].is_literal() {
                match int_literal_at(ts, i + 1, true) {
                    Some(v) => Some((v, 2)),
                    None => None,
                }
            } else {
                None
            }
        },
        _ => None,
    }
}

fn dotdot_at(ts: &Vec<TokenTree>, j: usize) -> (r: bool)
    ensures
        r == is_dotdot_at(trees_of(ts@), j as int),
{
    proof {
        lemma_trees_of(ts@);
    }
    if j >= ts.len() || ts.len() - j < 2 {
        return false;
    }
    ts[j].is_punct('.') && ts[j + 1].is_punct('.') && ts[j].span().hi == ts[j + 1].span().lo
}

/// Parses `var in start..end { body }`, the whole of `input`.
pub fn parse_header(input: &Vec<TokenTree>) -> (r: Result<ExpansionRequest, MalformedHeader>)
    ensures
        match r {
            Ok(q) => parse_header_spec(trees_of(input@)) == Ok::<_, MalformedHeader>(
                (q.var@, q.start, q.end, trees_of(q.body@)),
            ),
            Err(e) => parse_header_spec(trees_of(input@)) == Err::<
                (Seq<char>, i64, i64, Seq<Tree>),
                _,
            >(e),
        },
{
    proof {
        lemma_trees_of(input@);
    }
    if input.len() == 0 {
        return Err(MalformedHeader { position: 0, expected: Expected::Ident });
    }
    let var: String = match &input[0] {
        TokenTree::Ident { text, .. } => {
            if !ident_accepted(text.as_str()) {
                return Err(MalformedHeader { position: 0, expected: Expected::Ident });
            }
            text.clone()
        },
        _ => {
            return Err(MalformedHeader { position: 0, expected: Expected::Ident });
        },
    };
    let keyword = String::from_str("in");
    if input.len() < 2 || !input[1].is_ident_named(&keyword) {
        return Err(MalformedHeader { position: 1, expected: Expected::KeywordIn });
    }
    let (start, k) = match parse_bound(input, 2) {
        Some(b) => b,
        None => {
            return Err(MalformedHeader { position: 2, expected: Expected::IntLiteral });
        },
    };
    let j = 2 + k;
    if !dotdot_at(input, j) {
        return Err(MalformedHeader { position: j, expected: Expected::DotDot });
    }
    let (end, k2) = match parse_bound(input, j + 2) {
        Some(b) => b,
        None => {
            return Err(MalformedHeader { position: j + 2, expected: Expected::IntLiteral });
        },
    };
    let m = j + 2 + k2;
    if m >= input.len() {
        return Err(MalformedHeader { position: m, expected: Expected::BracedBody });
    }
    let body = match &input[m] {
        TokenTree::Group { delim: Delim::Brace, stream, .. } => copy_trees(stream),
        _ => {
            return Err(MalformedHeader { position: m, expected: Expected::BracedBody });
        },
    };
    if m + 1 < input.len() {
        return Err(MalformedHeader { position: m + 1, expected: Expected::End });
    }
    Ok(ExpansionRequest { var, start, end, body })
}

} // verus!
