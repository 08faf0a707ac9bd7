//! Unit of the ordered output queue: a value with its index path and the
//! number of children that the walk scheduled below it. The path that comes
//! first in depth-first preorder is handed out first.

use crate::index_path::IndexPath;
use crate::lex_order::lex_lt;
use crate::priority::{rank_lt, Prioritized};
use crate::priority_buffer::PriorityBuffer;
use vstd::multiset::Multiset;
use std::cmp::Ordering;
use vstd::prelude::*;

verus! {

/// A result placed at a position of the walk tree.
pub struct Ordered<T> {
    pub value: T,
    pub index_path: IndexPath,
    pub child_count: usize,
}

impl<T> Ordered<T> {
    /// Bundles `value` with its position and child count.
    pub fn new(value: T, index_path: IndexPath, child_count: usize) -> (o: Self)
        ensures
            o.value == value,
            o.index_path@ == index_path@,
            o.child_count == child_count,
    {
        Ordered { value, index_path, child_count }
    }

    /// Same index path.
    pub fn eq(&self, other: &Self) -> (r: bool)
        ensures
            r == (self.index_path@ == other.index_path@),
    {
        self.index_path.eq(&other.index_path)
    }

    /// Output order: `Greater` when `self` comes first in depth-first
    /// preorder, that is when its path is lexicographically smaller; the
    /// values and child counts play no part.
    pub fn cmp(&self, other: &Self) -> (r: Ordering)
        ensures
            (r == Ordering::Greater) == rank_lt(other.rank(), self.rank()),
            (r == Ordering::Equal) == (self.rank() == other.rank()),
            (r == Ordering::Less) == rank_lt(self.rank(), other.rank()),
            (r == Ordering::Greater) == lex_lt(self.index_path@, other.index_path@),
            (r == Ordering::Equal) == (self.index_path@ == other.index_path@),
            (r == Ordering::Less) == lex_lt(other.index_path@, self.index_path@),
    {
        self.index_path.cmp(&other.index_path)
    }
}

impl<T> Prioritized for Ordered<T> {
    open spec fn rank(&self) -> (int, Seq<usize>) {
        (0, self.index_path@)
    }

    fn ranks_below(&self, other: &Self) -> (r: bool) {
        match self.cmp(other) {
            Ordering::Less => true,
            _ => false,
        }
    }
}

/// The output order is the depth-first preorder of the index paths and
/// nothing else: one result ranks below another exactly when the other's
/// path is lexicographically smaller, and two results rank alike exactly when
/// their paths are equal, whatever their values and child counts.
pub proof fn lemma_output_order_is_path_order<T>(a: Ordered<T>, b: Ordered<T>)
    ensures
        rank_lt(a.rank(), b.rank()) <==> lex_lt(b.index_path@, a.index_path@),
        (a.rank() == b.rank()) <==> (a.index_path@ == b.index_path@),
{
}

/// The result that a priority buffer of results hands out next has the
/// lexicographically smallest path of all buffered results: no buffered
/// result comes before it in depth-first preorder.
pub proof fn lemma_earliest_path_first<T>(x: Ordered<T>, buffered: Multiset<Ordered<T>>)
    requires
        PriorityBuffer::is_top_of(x, buffered),
    ensures
        buffered.count(x) > 0,
        forall|y: Ordered<T>|
            buffered.count(y) > 0 ==> !lex_lt(#[trigger] y.index_path@, x.index_path@),
{
    assert forall|y: Ordered<T>| buffered.count(y) > 0 implies !lex_lt(
        #[trigger] y.index_path@,
        x.index_path@,
    ) by {
        assert(!rank_lt(x.rank(), y.rank()));
    }
}

} // verus!
