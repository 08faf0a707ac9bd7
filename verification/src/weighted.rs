//! Scheduling unit of the priority queue: a value with its index path and a
//! weight. A higher weight is handed out first ("flood the big pipes first");
//! among equal weights the path that comes first in depth-first preorder is
//! handed out first.

use crate::index_path::IndexPath;
use crate::lex_order::{lemma_lex_asymmetric, lemma_lex_irreflexive, lemma_lex_total, lex_lt};
use crate::priority::{rank_lt, Prioritized};
use crate::priority_buffer::PriorityBuffer;
use std::cmp::Ordering;
use vstd::multiset::Multiset;
use vstd::prelude::*;

verus! {

/// A value scheduled with a weight at a position of the walk tree.
pub struct Weighted<T> {
    pub value: T,
    pub index_path: IndexPath,
    pub weight: usize,
}

impl<T> Weighted<T> {
    /// Bundles `value` with its position and weight.
    pub fn new(value: T, index_path: IndexPath, weight: usize) -> (w: Self)
        ensures
            w.value == value,
            w.index_path@ == index_path@,
            w.weight == weight,
    {
        Weighted { value, index_path, weight }
    }

    /// Same weight and same index path (the value is not compared).
    pub fn eq(&self, other: &Self) -> (r: bool)
        ensures
            r == (self.weight == other.weight && self.index_path@ == other.index_path@),
    {
        self.weight == other.weight && self.index_path.eq(&other.index_path)
    }

    /// Scheduling order: `Greater` when `self` is handed out before `other`,
    /// that is when it has the higher weight, or the same weight and the
    /// lexicographically smaller index path.
    pub fn cmp(&self, other: &Self) -> (r: Ordering)
        ensures
            (r == Ordering::Greater) == rank_lt(other.rank(), self.rank()),
            (r == Ordering::Equal) == (self.rank() == other.rank()),
            (r == Ordering::Less) == rank_lt(self.rank(), other.rank()),
    {
        proof {
            lemma_lex_total(self.index_path@, other.index_path@);
            lemma_lex_asymmetric(self.index_path@, other.index_path@);
            lemma_lex_irreflexive(self.index_path@);
        }
        if self.weight > other.weight {
            Ordering::Greater
        } else if self.weight < other.weight {
            Ordering::Less
        } else {
            self.index_path.cmp(&other.index_path)
        }
    }

    /// `Some` of `cmp`.
    pub fn partial_cmp(&self, other: &Self) -> (r: Option<Ordering>)
        ensures
            r == Some(
                if rank_lt(other.rank(), self.rank()) {
                    Ordering::Greater
                } else if self.rank() == other.rank() {
                    Ordering::Equal
                } else {
                    Ordering::Less
                },
            ),
    {
        proof {
            lemma_lex_total(self.index_path@, other.index_path@);
            lemma_lex_asymmetric(self.index_path@, other.index_path@);
            lemma_lex_irreflexive(self.index_path@);
        }
        Some(self.cmp(other))
    }
}

impl<T> Prioritized for Weighted<T> {
    open spec fn rank(&self) -> (int, Seq<usize>) {
        (self.weight as int, self.index_path@)
    }

    fn ranks_below(&self, other: &Self) -> (r: bool) {
        match self.cmp(other) {
            Ordering::Less => true,
            _ => false,
        }
    }
}

/// Scheduling order of the work queue: the unit a priority buffer hands out
/// next has the highest weight of all buffered units, and among those of the
/// same weight the lexicographically smallest path (depth-first preorder).
pub proof fn lemma_heaviest_first<T>(x: Weighted<T>, buffered: Multiset<Weighted<T>>)
    requires
        PriorityBuffer::is_top_of(x, buffered),
    ensures
        forall|y: Weighted<T>|
            buffered.count(y) > 0 ==> #[trigger] y.weight <= x.weight && (y.weight == x.weight
                ==> !lex_lt(y.index_path@, x.index_path@)),
{
    assert forall|y: Weighted<T>| buffered.count(y) > 0 implies #[trigger] y.weight <= x.weight && (
    y.weight == x.weight ==> !lex_lt(y.index_path@, x.index_path@)) by {
        assert(!rank_lt(x.rank(), y.rank()));
    }
}

} // verus!
