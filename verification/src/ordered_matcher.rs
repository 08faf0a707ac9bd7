//! Tracks which index path the ordered output expects next. Results are
//! released in depth-first preorder: after a directory with children comes
//! its first child, after a leaf comes its next sibling, or, when a
//! directory's children are all done, the next sibling of the nearest
//! ancestor that still has one.

use crate::index_path::{IndexPath, INDEX_PATH_MAX_DEPTH};
use crate::ordered::Ordered;
use vstd::prelude::*;

verus! {

/// Expected-path state: the path looked for next and, per level, how many
/// children of that level are still to come (on the deepest level counting
/// the one looked for).
pub struct OrderedMatcher {
    looking_for: IndexPath,
    child_count_stack: Vec<usize>,
}

/// A consistent matcher state: one remaining-count per level, the deepest
/// count positive, and no index that could overflow when moved on to the
/// next sibling (on each level the index plus the remaining count stays
/// within `usize`, strictly so above the deepest level).
pub open spec fn matcher_wf(p: Seq<usize>, s: Seq<usize>) -> bool {
    &&& partial_wf(p, s)
    &&& s.len() > 0 ==> s.last() > 0
}

/// `matcher_wf` without the condition on the deepest count.
pub open spec fn partial_wf(p: Seq<usize>, s: Seq<usize>) -> bool {
    &&& p.len() == s.len()
    &&& forall|i: int| 0 <= i < s.len() ==> p[i] + s[i] <= usize::MAX
    &&& forall|i: int| 0 <= i < s.len() - 1 ==> p[i] + s[i] < usize::MAX
}

/// The path with its last index raised by one (the next sibling).
pub open spec fn next_sibling(p: Seq<usize>) -> Seq<usize> {
    p.update(p.len() - 1, (p.last() + 1) as usize)
}

/// The stack with its deepest count lowered by one, saturating at zero.
pub open spec fn decrement_last(s: Seq<usize>) -> Seq<usize> {
    if s.len() > 0 {
        s.update(s.len() - 1, if s.last() > 0 { (s.last() - 1) as usize } else { 0 })
    } else {
        s
    }
}

/// Leaves every level whose children are all done, moving each time to the
/// next sibling of the level above.
pub open spec fn unwind(p: Seq<usize>, s: Seq<usize>) -> (Seq<usize>, Seq<usize>)
    decreases s.len(),
{
    if s.len() > 0 && s.last() == 0 {
        let p1 = p.drop_last();
        let p2 = if p1.len() > 0 {
            next_sibling(p1)
        } else {
            p1
        };
        unwind(p2, s.drop_last())
    } else {
        (p, s)
    }
}

/// The state after the expected result, which has `c` children, went out.
pub open spec fn advance(p: Seq<usize>, s: Seq<usize>, c: usize) -> (Seq<usize>, Seq<usize>) {
    let s1 = decrement_last(s);
    if c > 0 {
        (p.push(0), s1.push(c))
    } else {
        unwind(next_sibling(p), s1)
    }
}

impl View for OrderedMatcher {
    type V = (Seq<usize>, Seq<usize>);

    closed spec fn view(&self) -> (Seq<usize>, Seq<usize>) {
        (self.looking_for@, self.child_count_stack@)
    }
}

impl OrderedMatcher {
    /// The matcher state is consistent.
    pub open spec fn wf(&self) -> bool {
        matcher_wf(self@.0, self@.1)
    }

    /// The matcher at the start of a walk: it expects the root, path `[0]`,
    /// the only entry of its level.
    pub fn new() -> (m: Self)
        ensures
            m@ == (seq![0usize], seq![1usize]),
            m.wf(),
    {
        let mut v: Vec<usize> = Vec::new();
        v.push(0);
        let mut stack: Vec<usize> = Vec::new();
        stack.push(1);
        let m = OrderedMatcher { looking_for: IndexPath::new(v), child_count_stack: stack };
        assert(m@.0 =~= seq![0usize]);
        assert(m@.1 =~= seq![1usize]);
        m
    }

    /// The path expected next.
    pub fn looking_for(&self) -> (p: &IndexPath)
        ensures
            p@ == self@.0,
    {
        &self.looking_for
    }

    /// The number of levels of the expected path.
    pub fn depth(&self) -> (d: usize)
        ensures
            d == self@.0.len(),
    {
        self.looking_for.len()
    }

    /// Whether nothing more is expected: the whole tree went out.
    pub fn is_none(&self) -> (r: bool)
        ensures
            r == (self@.0.len() == 0),
    {
        self.looking_for.is_empty()
    }

    /// One child of the deepest level went out: its remaining count goes down
    /// by one, saturating at zero.
    pub fn decrement_remaining_children(&mut self)
        ensures
            final(self)@ == (old(self)@.0, decrement_last(old(self)@.1)),
    {
        let n = self.child_count_stack.len();
        if n > 0 {
            let count = self.child_count_stack[n - 1];
            let lowered = if count > 0 {
                count - 1
            } else {
                0
            };
            self.child_count_stack.set(n - 1, lowered);
        }
    }

    /// The expected result, with `ordered.child_count` children, went out:
    /// expect its first child when it has children, else its next sibling,
    /// or the next sibling of the nearest ancestor with children left.
    pub fn advance_past<T>(&mut self, ordered: &Ordered<T>)
        requires
            old(self).wf(),
            ordered.child_count > 0 ==> old(self)@.0.len() < INDEX_PATH_MAX_DEPTH,
            ordered.child_count == 0 ==> old(self)@.0.len() > 0,
        ensures
            final(self)@ == advance(old(self)@.0, old(self)@.1, ordered.child_count),
            final(self).wf(),
    {
        self.decrement_remaining_children();
        if ordered.child_count > 0 {
            self.looking_for.push(0);
            self.child_count_stack.push(ordered.child_count);
        } else {
            self.looking_for.increment_last();
            let ghost target = unwind(self@.0, self@.1);
            while self.child_count_stack.len() > 0 && self.child_count_stack[self.child_count_stack.len() - 1] == 0
                invariant
                    partial_wf(self@.0, self@.1),
                    unwind(self@.0, self@.1) == target,
                decreases self@.1.len(),
            {
                let ghost p0 = self@.0;
                let ghost s0 = self@.1;
                self.looking_for.pop();
                self.child_count_stack.pop();
                if !self.looking_for.is_empty() {
                    self.looking_for.increment_last();
                }
                assert(self@.1 =~= s0.drop_last());
            }
        }
    }
}

impl Default for OrderedMatcher {
    /// Same as `new`.
    fn default() -> (m: Self)
        ensures
            m@ == (seq![0usize], seq![1usize]),
            m.wf(),
    {
        OrderedMatcher::new()
    }
}

/// A directory tree of the walk: each node lists its subdirectories in the
/// order in which the walk numbers them.
pub struct WalkTree {
    pub children: Seq<WalkTree>,
}

/// The results of the walk of the trees `cs[from..]` under the path
/// `parent`, in depth-first preorder: each with its index path and its
/// number of children.
pub open spec fn walk_entries(cs: Seq<WalkTree>, parent: Seq<usize>, from: int) -> Seq<
    (Seq<usize>, usize),
>
    decreases cs, cs.len() - from,
{
    if from < 0 || from >= cs.len() {
        Seq::empty()
    } else {
        let path = parent.push(from as usize);
        proof {
            assert(decreases_to!(cs => cs[from]));
        }
        seq![(path, cs[from].children.len() as usize)] + walk_entries(cs[from].children, path, 0)
            + walk_entries(cs, parent, from + 1)
    }
}

/// No node of the trees `cs[from..]` has more children than a `usize` counts.
pub open spec fn forest_fits(cs: Seq<WalkTree>, from: int) -> bool
    decreases cs, cs.len() - from,
{
    if from < 0 || from >= cs.len() {
        true
    } else {
        proof {
            assert(decreases_to!(cs => cs[from]));
        }
        cs.len() <= usize::MAX && forest_fits(cs[from].children, 0) && forest_fits(cs, from + 1)
    }
}

/// Runs the matcher from state `(p, s)` over `entries`: whether each entry
/// was the one expected when it went out, and the state at the end.
pub open spec fn run_matcher(p: Seq<usize>, s: Seq<usize>, entries: Seq<(Seq<usize>, usize)>) -> (
    bool,
    Seq<usize>,
    Seq<usize>,
)
    decreases entries.len(),
{
    if entries.len() == 0 {
        (true, p, s)
    } else {
        let next = advance(p, s, entries[0].1);
        let rest = run_matcher(next.0, next.1, entries.drop_first());
        (p == entries[0].0 && rest.0, rest.1, rest.2)
    }
}

proof fn lemma_run_concat(
    p: Seq<usize>,
    s: Seq<usize>,
    a: Seq<(Seq<usize>, usize)>,
    b: Seq<(Seq<usize>, usize)>,
)
    ensures
        ({
            let ra = run_matcher(p, s, a);
            let rb = run_matcher(ra.1, ra.2, b);
            run_matcher(p, s, a + b) == (ra.0 && rb.0, rb.1, rb.2)
        }),
    decreases a.len(),
{
    if a.len() > 0 {
        let next = advance(p, s, a[0].1);
        assert((a + b).drop_first() =~= a.drop_first() + b);
        assert((a + b)[0] == a[0]);
        lemma_run_concat(next.0, next.1, a.drop_first(), b);
    } else {
        assert(a + b =~= b);
    }
}

proof fn lemma_walk_forest(cs: Seq<WalkTree>, pp: Seq<usize>, dd: Seq<usize>, j: int)
    requires
        0 <= j < cs.len(),
        forest_fits(cs, j),
    ensures
        run_matcher(pp.push(j as usize), dd.push((cs.len() - j) as usize), walk_entries(cs, pp, j))
            == ({
            let fin = unwind(pp.push(cs.len() as usize), dd.push(0));
            (true, fin.0, fin.1)
        }),
    decreases cs, cs.len() - j,
{
    let c = cs.len();
    let t = cs[j];
    let n = t.children.len();
    let path = pp.push(j as usize);
    assert(decreases_to!(cs => cs[j]));
    assert(forest_fits(t.children, 0));
    assert(forest_fits(cs, j + 1));
    assert(c <= usize::MAX);
    if n > 0 {
        assert(n <= usize::MAX);
    }
    let e0 = seq![(path, n as usize)];
    let a = walk_entries(t.children, path, 0);
    let b = walk_entries(cs, pp, j + 1);
    assert(walk_entries(cs, pp, j) == e0 + a + b);
    let d1 = dd.push((c - j - 1) as usize);
    assert(decrement_last(dd.push((c - j) as usize)) =~= d1);
    let after_e0 = advance(path, dd.push((c - j) as usize), n as usize);
    lemma_run_concat(path, dd.push((c - j) as usize), e0, a);
    lemma_run_concat(path, dd.push((c - j) as usize), e0 + a, b);
    assert(e0.drop_first() =~= Seq::<(Seq<usize>, usize)>::empty());
    assert(e0[0] == (path, n as usize));
    assert(run_matcher(after_e0.0, after_e0.1, e0.drop_first()) == (true, after_e0.0, after_e0.1));
    assert(run_matcher(path, dd.push((c - j) as usize), e0) == (true, after_e0.0, after_e0.1));
    let ra = run_matcher(after_e0.0, after_e0.1, a);
    assert(next_sibling(path) =~= pp.push((j + 1) as usize));
    let state2 = unwind(pp.push((j + 1) as usize), d1);
    if n > 0 {
        assert(decreases_to!(cs => cs[j]));
        lemma_walk_forest(t.children, path, d1, 0);
        assert(after_e0 == (path.push(0), d1.push(n as usize)));
        let inner = unwind(path.push(n as usize), d1.push(0));
        assert(path.push(n as usize).drop_last() =~= path);
        assert(d1.push(0).drop_last() =~= d1);
        assert(inner == state2);
        assert(ra == (true, state2.0, state2.1));
    } else {
        assert(a =~= Seq::<(Seq<usize>, usize)>::empty());
        assert(ra == (true, state2.0, state2.1));
    }
    if j + 1 < c {
        assert(state2 == (pp.push((j + 1) as usize), d1));
        lemma_walk_forest(cs, pp, dd, j + 1);
    } else {
        assert(b =~= Seq::<(Seq<usize>, usize)>::empty());
    }
}

/// The ordered output follows depth-first preorder: a matcher that starts at
/// the root and is fed the results of a whole walk in preorder (each with its
/// number of children) finds each result to be the one it expects, and ends
/// with nothing left to expect.
pub proof fn lemma_matcher_follows_preorder(root: WalkTree)
    requires
        forest_fits(seq![root], 0),
    ensures
        run_matcher(seq![0usize], seq![1usize], walk_entries(seq![root], Seq::empty(), 0)) == (
            true,
            Seq::<usize>::empty(),
            Seq::<usize>::empty(),
        ),
{
    let cs = seq![root];
    let e = Seq::<usize>::empty();
    lemma_walk_forest(cs, e, e, 0);
    assert(e.push(0usize) =~= seq![0usize]);
    assert(e.push(1usize) =~= seq![1usize]);
    let p1 = e.push(1usize);
    let s1 = e.push(0usize);
    assert(p1.drop_last() =~= e);
    assert(s1.drop_last() =~= e);
    assert(unwind(e, e) == (e, e));
    assert(unwind(p1, s1) == unwind(e, e));
}

} // verus!
