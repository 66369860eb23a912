use vstd::prelude::*;
use crate::token::{Tree, span_of};
use crate::expand::expand_trees;
use crate::scan::{is_marker_at, repeat_trees, scan_trees, run_trees};

verus! {

broadcast use vstd::seq::group_seq_axioms;

/// The units of a fallback expansion: the body expanded for each value of
/// `[a, b)`, in order.
pub open spec fn fallback_units(body: Seq<Tree>, var: Seq<char>, a: int, b: int) -> Seq<Seq<Tree>> {
    Seq::new(if a < b { (b - a) as nat } else { 0 }, |k: int| expand_trees(body, var, a + k))
}

proof fn lemma_repeat_is_flatten(body: Seq<Tree>, var: Seq<char>, a: int, b: int)
    ensures
        repeat_trees(body, var, a, b) == fallback_units(body, var, a, b).flatten(),
    decreases b - a,
{
    if a < b {
        lemma_repeat_is_flatten(body, var, a + 1, b);
        assert(fallback_units(body, var, a, b).drop_first() =~= fallback_units(body, var, a + 1, b));
    } else {
        assert(fallback_units(body, var, a, b) =~= Seq::<Seq<Tree>>::empty());
    }
}

/// Without a repeat marker in the body, the output is `max(0, b - a)` units
/// laid end to end, unit `k` being the body expanded for the value `a + k`;
/// for `a >= b` it is empty.
pub proof fn lemma_fallback_expansion_count(body: Seq<Tree>, var: Seq<char>, a: int, b: int)
    requires
        !scan_trees(body, var, a, b).1,
    ensures
        run_trees(body, var, a, b) == fallback_units(body, var, a, b).flatten(),
        fallback_units(body, var, a, b).len() == if a < b { b - a } else { 0 },
        forall|k: int|
            0 <= k < fallback_units(body, var, a, b).len() ==> #[trigger] fallback_units(body, var, a, b)[k]
                == expand_trees(body, var, a + k),
        a >= b ==> run_trees(body, var, a, b) == Seq::<Tree>::empty(),
{
    lemma_repeat_is_flatten(body, var, a, b);
}

/// Where the scan finds no repeat marker, it hands the trees back unchanged.
pub proof fn lemma_scan_without_marker_keeps_trees(s: Seq<Tree>, var: Seq<char>, a: int, b: int)
    requires
        !scan_trees(s, var, a, b).1,
    ensures
        scan_trees(s, var, a, b).0 == s,
    decreases s,
{
    if s.len() > 0 {
        lemma_scan_without_marker_keeps_trees(s.subrange(1, s.len() as int), var, a, b);
        assert(seq![s[0]] + s.subrange(1, s.len() as int) =~= s);
    } else {
        assert(s =~= Seq::<Tree>::empty());
    }
}

/// Two neighbouring trees of `s`, at any depth, touch (the first ends where
/// the second begins) only where both are punctuation. This is the layout of
/// trees read back from text that puts a space between any two tokens but
/// joined punctuation, as token streams are printed.
pub open spec fn spaced(s: Seq<Tree>) -> bool
    decreases s,
{
    if s.len() == 0 {
        true
    } else {
        &&& (s.len() >= 2 && span_of(s[0]).hi == span_of(s[1]).lo ==> s[0] is Punct && s[1] is Punct)
        &&& (s[0] is Group ==> spaced(s[0]->stream))
        &&& spaced(s.subrange(1, s.len() as int))
    }
}

/// Trees read back from printed text (`spaced`) hold no repeat marker at any
/// depth: the scan finds none, so the expansion does not act again on its own
/// printed output.
pub proof fn lemma_spaced_has_no_marker(s: Seq<Tree>, var: Seq<char>, a: int, b: int)
    requires
        spaced(s),
    ensures
        !scan_trees(s, var, a, b).1,
    decreases s,
{
    if s.len() > 0 {
        assert(!is_marker_at(s));
        if s[0] is Group {
            lemma_spaced_has_no_marker(s[0]->stream, var, a, b);
        }
        lemma_spaced_has_no_marker(s.subrange(1, s.len() as int), var, a, b);
    }
}

} // verus!
