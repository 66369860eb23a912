use proc_macro2::{Delimiter, Group, Ident, Literal, Punct, Spacing, TokenStream};
use seq_expand::scan::{run, scan};
use seq_expand::{Delim, Loc, Span, TokenTree};

fn span_of(s: proc_macro2::Span) -> Span {
    let (lo, hi) = (s.start(), s.end());
    Span { lo: Loc { line: lo.line, column: lo.column }, hi: Loc { line: hi.line, column: hi.column } }
}

fn from_stream(ts: TokenStream) -> Vec<TokenTree> {
    let mut out = Vec::new();
    for tt in ts {
        match tt {
            proc_macro2::TokenTree::Ident(i) => out.push(TokenTree::ident(&i.to_string(), span_of(i.span()))),
            proc_macro2::TokenTree::Literal(l) => {
                out.push(TokenTree::literal(&l.to_string(), span_of(l.span())))
            }
            proc_macro2::TokenTree::Punct(p) => out.push(TokenTree::punct(p.as_char(), span_of(p.span()))),
            proc_macro2::TokenTree::Group(g) => {
                let stream = from_stream(g.stream());
                let delim = match g.delimiter() {
                    Delimiter::Parenthesis => Delim::Paren,
                    Delimiter::Bracket => Delim::Bracket,
                    Delimiter::Brace => Delim::Brace,
                    Delimiter::None => {
                        out.extend(stream);
                        continue;
                    }
                };
                out.push(TokenTree::group(delim, stream, span_of(g.span())));
            }
        }
    }
    out
}

fn to_stream(ts: &[TokenTree]) -> TokenStream {
    let mut out = TokenStream::new();
    for (i, t) in ts.iter().enumerate() {
        let tt: proc_macro2::TokenTree = match t {
            TokenTree::Ident { text, .. } => Ident::new(text, proc_macro2::Span::call_site()).into(),
            TokenTree::Literal { text, .. } => text.parse::<Literal>().unwrap().into(),
            TokenTree::Punct { ch, span } => {
                let joint = matches!(ts.get(i + 1), Some(TokenTree::Punct { span: next, .. }) if next.lo == span.hi);
                Punct::new(*ch, if joint { Spacing::Joint } else { Spacing::Alone }).into()
            }
            TokenTree::Group { delim, stream, .. } => {
                let d = match delim {
                    Delim::Paren => Delimiter::Parenthesis,
                    Delim::Bracket => Delimiter::Bracket,
                    Delim::Brace => Delimiter::Brace,
                };
                Group::new(d, to_stream(stream)).into()
            }
        };
        out.extend(std::iter::once(tt));
    }
    out
}

#[test]
fn printed_output_read_back_holds_no_marker() {
    // #( #( a#x )* )* : the outer marker is expanded, the inner one is copied.
    let input: TokenStream = "#( #( a#x )* )*".parse().unwrap();
    let body = from_stream(input);
    let x = "x".to_string();
    let out = run(&body, &x, 0, 2);
    let (_, found_in_memory) = scan(&out, &x, 0, 2);
    assert!(found_in_memory);

    let printed = to_stream(&out).to_string();
    let reread = from_stream(printed.parse::<TokenStream>().unwrap());
    let (again, found) = scan(&reread, &x, 0, 2);
    assert!(!found);
    assert_eq!(again, reread);
}

#[test]
fn tokenized_template_expands() {
    let input: TokenStream = "fn f#x() -> u32 { x }".parse().unwrap();
    let out = run(&from_stream(input), &"x".to_string(), 0, 2);
    assert_eq!(to_stream(&out).to_string(), "fn f0 () -> u32 { 0 } fn f1 () -> u32 { 1 }");
}
