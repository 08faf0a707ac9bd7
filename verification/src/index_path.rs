//! Position of a directory in the walk tree: the child index taken at each
//! level from the root. Paths order in reverse lexicographic order, so that a
//! max-priority buffer hands out the path that comes first in a depth-first
//! preorder walk.

use crate::lex_order::{
    lemma_lex_asymmetric, lemma_lex_irreflexive, lemma_lex_prefix, lemma_lex_raise_last,
    lemma_lex_total, lex_lt,
};
use smallvec::SmallVec;
use std::cmp::Ordering;
use vstd::prelude::*;

verus! {

/// Inline-8 vector of path indices: a `SmallVec<[usize; 8]>`, which keeps up
/// to eight levels without a heap allocation.
#[verifier::external_body]
#[derive(Debug)]
pub struct PathIndices {
    inner: SmallVec<[usize; 8]>,
}

/// The indices that a `PathIndices` holds, front to back.
pub uninterp spec fn path_indices(v: PathIndices) -> Seq<usize>;

/// `SmallVec::from_vec`: a vector holding the elements of `v`, in order.
#[verifier::external_body]
fn small_from_vec(v: Vec<usize>) -> (r: PathIndices)
    ensures
        path_indices(r) == v@,
{
    PathIndices { inner: SmallVec::from_vec(v) }
}

/// Depth below which appending to an index path never overflows the
/// capacity computation of `SmallVec` (which panics once the doubled
/// capacity no longer fits an allocation), on 32-bit and 64-bit targets.
pub const INDEX_PATH_MAX_DEPTH: usize = 0x1000_0000;

/// `SmallVec::push`: appends `x` at the back. It grows the capacity to the
/// next power of two, which cannot overflow below `INDEX_PATH_MAX_DEPTH`.
#[verifier::external_body]
fn small_push(v: &mut PathIndices, x: usize)
    requires
        path_indices(*old(v)).len() < INDEX_PATH_MAX_DEPTH,
    ensures
        path_indices(*final(v)) == path_indices(*old(v)).push(x),
{
    v.inner.push(x)
}

/// `SmallVec::pop`: removes and returns the last element, `None` when empty.
#[verifier::external_body]
fn small_pop(v: &mut PathIndices) -> (r: Option<usize>)
    ensures
        path_indices(*old(v)).len() == 0 ==> r == None::<usize> && path_indices(*final(v))
            == path_indices(*old(v)),
        path_indices(*old(v)).len() > 0 ==> r == Some(path_indices(*old(v)).last())
            && path_indices(*final(v)) == path_indices(*old(v)).drop_last(),
{
    v.inner.pop()
}

/// `last` (of the `SmallVec`'s slice): the last element, `None` when empty.
#[verifier::external_body]
fn small_last(v: &PathIndices) -> (r: Option<&usize>)
    ensures
        path_indices(*v).len() == 0 ==> r.is_none(),
        path_indices(*v).len() > 0 ==> r == Some(&path_indices(*v).last()),
{
    v.inner.last()
}

/// `last_mut` (of the `SmallVec`'s slice): overwrites the last element.
#[verifier::external_body]
fn small_set_last(v: &mut PathIndices, x: usize)
    requires
        path_indices(*old(v)).len() > 0,
    ensures
        path_indices(*final(v)) == path_indices(*old(v)).update(
            path_indices(*old(v)).len() - 1,
            x,
        ),
{
    *v.inner.last_mut().unwrap() = x
}

/// `SmallVec::is_empty`: whether it holds no element.
#[verifier::external_body]
fn small_is_empty(v: &PathIndices) -> (r: bool)
    ensures
        r == (path_indices(*v).len() == 0),
{
    v.inner.is_empty()
}

/// `SmallVec::len`: the number of elements.
#[verifier::external_body]
fn small_len(v: &PathIndices) -> (r: usize)
    ensures
        r == path_indices(*v).len(),
{
    v.inner.len()
}

/// `SmallVec::to_vec` (through its slice): the elements, in order, in a `Vec`.
#[verifier::external_body]
fn small_to_vec(v: &PathIndices) -> (r: Vec<usize>)
    ensures
        r@ == path_indices(*v),
{
    v.inner.to_vec()
}

/// `<SmallVec as Clone>::clone`: a copy with the same elements.
#[verifier::external_body]
fn small_clone(v: &PathIndices) -> (r: PathIndices)
    ensures
        path_indices(r) == path_indices(*v),
{
    PathIndices { inner: v.inner.clone() }
}

/// `<SmallVec as PartialEq>::eq`: element-wise equality of the two slices.
#[verifier::external_body]
fn small_eq(a: &PathIndices, b: &PathIndices) -> (r: bool)
    ensures
        r == (path_indices(*a) == path_indices(*b)),
{
    a.inner.eq(&b.inner)
}

/// `<SmallVec as Ord>::cmp`: the lexicographic order of the two slices.
#[verifier::external_body]
fn small_cmp(a: &PathIndices, b: &PathIndices) -> (r: Ordering)
    ensures
        (r == Ordering::Less) == lex_lt(path_indices(*a), path_indices(*b)),
        (r == Ordering::Equal) == (path_indices(*a) == path_indices(*b)),
        (r == Ordering::Greater) == lex_lt(path_indices(*b), path_indices(*a)),
{
    a.inner.cmp(&b.inner)
}

/// Index path of a directory in the walk tree.
#[derive(Debug)]
pub struct IndexPath {
    pub indices: PathIndices,
}

impl View for IndexPath {
    type V = Seq<usize>;

    open spec fn view(&self) -> Seq<usize> {
        path_indices(self.indices)
    }
}

/// `a` is handed out before `b` by a max-priority buffer: paths compare in
/// reverse lexicographic order, so the lexicographically smaller path ranks
/// higher.
pub open spec fn path_outranks(a: Seq<usize>, b: Seq<usize>) -> bool {
    lex_lt(a, b)
}

/// Depth-first preorder of paths: a directory is handed out before each of
/// its children (`p` before `p + [i]`), and earlier siblings before later
/// ones (`p + [i]` before `p + [j]` for `i < j`).
pub proof fn lemma_path_preorder(p: Seq<usize>, i: usize, j: usize)
    ensures
        path_outranks(p, p.push(i)),
        i < j ==> path_outranks(p.push(i), p.push(j)),
{
    lemma_lex_prefix(p, i);
    if i < j {
        lemma_lex_raise_last(p, i, j);
    }
}

impl Clone for IndexPath {
    /// A copy holding the same indices.
    fn clone(&self) -> (p: IndexPath)
        ensures
            p@ == self@,
    {
        IndexPath { indices: small_clone(&self.indices) }
    }
}

impl IndexPath {
    /// A path holding `indices`, root level first.
    pub fn new(indices: Vec<usize>) -> (p: IndexPath)
        ensures
            p@ == indices@,
    {
        IndexPath { indices: small_from_vec(indices) }
    }

    /// The indices of this path, root level first.
    pub fn to_vec(&self) -> (v: Vec<usize>)
        ensures
            v@ == self@,
    {
        small_to_vec(&self.indices)
    }

    /// A new path: this one extended by `index`.
    pub fn adding(&self, index: usize) -> (p: IndexPath)
        requires
            self@.len() < INDEX_PATH_MAX_DEPTH,
        ensures
            p@ == self@.push(index),
    {
        let mut indices = small_clone(&self.indices);
        small_push(&mut indices, index);
        IndexPath { indices }
    }

    /// Extends this path by `index`.
    pub fn push(&mut self, index: usize)
        requires
            old(self)@.len() < INDEX_PATH_MAX_DEPTH,
        ensures
            final(self)@ == old(self)@.push(index),
    {
        small_push(&mut self.indices, index);
    }

    /// Moves to the next sibling: the last index goes up by one.
    pub fn increment_last(&mut self)
        requires
            old(self)@.len() > 0,
            old(self)@.last() < usize::MAX,
        ensures
            final(self)@ == old(self)@.update(
                old(self)@.len() - 1,
                (old(self)@.last() + 1) as usize,
            ),
    {
        let last = small_last(&self.indices);
        match last {
            Some(l) => {
                let next = *l + 1;
                small_set_last(&mut self.indices, next);
            },
            None => {},
        }
    }

    /// Removes and returns the last index, `None` for the empty path.
    pub fn pop(&mut self) -> (r: Option<usize>)
        ensures
            old(self)@.len() == 0 ==> r == None::<usize> && final(self)@ == old(self)@,
            old(self)@.len() > 0 ==> r == Some(old(self)@.last()) && final(self)@ == old(
                self,
            )@.drop_last(),
    {
        small_pop(&mut self.indices)
    }

    /// Whether the path holds no index.
    pub fn is_empty(&self) -> (r: bool)
        ensures
            r == (self@.len() == 0),
    {
        small_is_empty(&self.indices)
    }

    /// The number of indices.
    pub fn len(&self) -> (r: usize)
        ensures
            r == self@.len(),
    {
        small_len(&self.indices)
    }

    /// Whether both paths hold the same indices.
    pub fn eq(&self, o: &IndexPath) -> (r: bool)
        ensures
            r == (self@ == o@),
    {
        small_eq(&self.indices, &o.indices)
    }

    /// Reverse lexicographic comparison: `Greater` when this path comes first
    /// in lexicographic order.
    pub fn cmp(&self, o: &IndexPath) -> (r: Ordering)
        ensures
            (r == Ordering::Greater) == path_outranks(self@, o@),
            (r == Ordering::Equal) == (self@ == o@),
            (r == Ordering::Less) == path_outranks(o@, self@),
    {
        small_cmp(&o.indices, &self.indices)
    }

    /// `Some` of `cmp`.
    pub fn partial_cmp(&self, o: &IndexPath) -> (r: Option<Ordering>)
        ensures
            r == Some(
                if path_outranks(self@, o@) {
                    Ordering::Greater
                } else if self@ == o@ {
                    Ordering::Equal
                } else {
                    Ordering::Less
                },
            ),
    {
        proof {
            lemma_lex_total(self@, o@);
            lemma_lex_asymmetric(self@, o@);
            lemma_lex_irreflexive(self@);
        }
        Some(self.cmp(o))
    }
}

} // verus!
