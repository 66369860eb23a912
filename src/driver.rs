use vstd::prelude::*;
use crate::token::{Tree, TokenTree, trees_of};
use crate::header::{ExpansionRequest, MalformedHeader, parse_header, parse_header_spec};
use crate::scan::{run, run_trees};

verus! {

/// What a whole invocation `var in start..end { body }` expands to, or where
/// its header breaks the grammar.
pub open spec fn seq_spec(input: Seq<Tree>) -> Result<Seq<Tree>, MalformedHeader> {
    match parse_header_spec(input) {
        Ok((var, start, end, body)) => Ok(run_trees(body, var, start as int, end as int)),
        Err(e) => Err(e),
    }
}

impl ExpansionRequest {
    /// The expansion of the parsed request.
    pub fn run(&self) -> (r: Vec<TokenTree>)
        ensures
            trees_of(r@) == run_trees(trees_of(self.body@), self.var@, self.start as int, self.end as int),
    {
        run(&self.body, &self.var, self.start, self.end)
    }
}

/// Parses the header of `input` and expands its body over the range.
pub fn seq(input: &Vec<TokenTree>) -> (r: Result<Vec<TokenTree>, MalformedHeader>)
    ensures
        match r {
            Ok(out) => seq_spec(trees_of(input@)) == Ok::<_, MalformedHeader>(trees_of(out@)),
            Err(e) => seq_spec(trees_of(input@)) == Err::<Seq<Tree>, _>(e),
        },
{
    match parse_header(input) {
        Ok(request) => Ok(request.run()),
        Err(e) => Err(e),
    }
}

} // verus!
