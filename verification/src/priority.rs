//! Scheduling rank shared by everything that goes through a priority
//! buffer: a weight (higher first) and an index path (lexicographically
//! smaller first, which is depth-first preorder).

use crate::lex_order::{
    lemma_lex_asymmetric, lemma_lex_irreflexive, lemma_lex_total, lemma_lex_transitive, lex_lt,
};
use vstd::prelude::*;

verus! {

/// `a` ranks strictly below `b`: `b` has the higher weight, or the same
/// weight and the lexicographically smaller path. A max-priority buffer hands
/// out `b` before `a`.
pub open spec fn rank_lt(a: (int, Seq<usize>), b: (int, Seq<usize>)) -> bool {
    a.0 < b.0 || (a.0 == b.0 && lex_lt(b.1, a.1))
}

/// Items that a priority buffer can order.
pub trait Prioritized {
    /// The item's rank: its weight and its index path.
    spec fn rank(&self) -> (int, Seq<usize>);

    /// Whether this item ranks strictly below `other`.
    fn ranks_below(&self, other: &Self) -> (r: bool)
        ensures
            r == rank_lt(self.rank(), other.rank()),
    ;
}

/// Rank order is a strict total order: irreflexive, asymmetric, transitive,
/// and any two different ranks are ordered one way or the other.
pub proof fn lemma_rank_order(a: (int, Seq<usize>), b: (int, Seq<usize>), c: (int, Seq<usize>))
    ensures
        !rank_lt(a, a),
        rank_lt(a, b) ==> !rank_lt(b, a),
        rank_lt(a, b) && rank_lt(b, c) ==> rank_lt(a, c),
        a == b || rank_lt(a, b) || rank_lt(b, a),
{
    lemma_lex_irreflexive(a.1);
    lemma_lex_asymmetric(a.1, b.1);
    lemma_lex_asymmetric(b.1, a.1);
    lemma_lex_transitive(c.1, b.1, a.1);
    lemma_lex_total(a.1, b.1);
}

/// "Not below" is transitive, and a rank above `y` is not below anything
/// that `y` is not below.
pub proof fn lemma_not_below(x: (int, Seq<usize>), y: (int, Seq<usize>), z: (int, Seq<usize>))
    ensures
        !rank_lt(x, y) && !rank_lt(y, z) ==> !rank_lt(x, z),
        !rank_lt(y, z) && rank_lt(y, x) ==> !rank_lt(x, z),
{
    lemma_rank_order(x, y, z);
    lemma_rank_order(z, y, x);
    lemma_rank_order(x, z, y);
    lemma_rank_order(y, x, z);
    lemma_rank_order(z, x, y);
    lemma_rank_order(y, z, x);
}

} // verus!
