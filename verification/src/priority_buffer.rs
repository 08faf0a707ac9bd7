//! Max-priority buffer: items arrive in any order and leave highest rank
//! first. A binary max-heap in a `Vec`: every slot ranks no lower than its
//! children, so the top is in slot 0; adding and removing cost O(log n)
//! comparisons.

use crate::priority::{lemma_not_below, lemma_rank_order, rank_lt, Prioritized};
use vstd::multiset::Multiset;
use vstd::prelude::*;

verus! {

broadcast use vstd::seq_lib::group_to_multiset_ensures;

/// Parent slot of slot `i > 0`.
pub open spec fn parent(i: int) -> int {
    (i - 1) / 2
}

/// `a` ranks strictly below `b`.
pub open spec fn below<T: Prioritized>(a: T, b: T) -> bool {
    rank_lt(a.rank(), b.rank())
}

/// Heap order: no slot ranks below one of its children.
pub open spec fn heap_ordered<T: Prioritized>(s: Seq<T>) -> bool {
    forall|j: int| 0 < j < s.len() ==> !below(s[parent(j)], #[trigger] s[j])
}

/// The items of the slots (all of which hold one).
pub open spec fn slot_items<T>(slots: Seq<Option<T>>) -> Seq<T> {
    slots.map_values(|o: Option<T>| o.unwrap())
}

/// Every slot holds an item.
pub open spec fn all_filled<T>(slots: Seq<Option<T>>) -> bool {
    forall|j: int| 0 <= j < slots.len() ==> (#[trigger] slots[j]).is_some()
}

proof fn lemma_root_is_top<T: Prioritized>(s: Seq<T>, k: int)
    requires
        heap_ordered(s),
        0 <= k < s.len(),
    ensures
        !below(s[0], s[k]),
    decreases k,
{
    if k == 0 {
        lemma_rank_order(s[0].rank(), s[0].rank(), s[0].rank());
    } else {
        let p = parent(k);
        lemma_root_is_top(s, p);
        assert(!below(s[p], s[k]));
        lemma_not_below(s[0].rank(), s[p].rank(), s[k].rank());
    }
}

proof fn lemma_swap_multiset<T>(s: Seq<T>, i: int, j: int)
    requires
        0 <= i < s.len(),
        0 <= j < s.len(),
    ensures
        s.update(i, s[j]).update(j, s[i]).to_multiset() =~= s.to_multiset(),
{
    let s1 = s.update(i, s[j]);
    assert(s1.to_multiset() =~= s.to_multiset().insert(s[j]).remove(s[i]));
    assert(s1[j] == (if i == j {
        s[j]
    } else {
        s[j]
    }));
    assert(s1.update(j, s[i]).to_multiset() =~= s1.to_multiset().insert(s[i]).remove(s1[j]));
}

/// Swaps the items of slots `i` and `j`.
fn swap_slots<T>(slots: &mut Vec<Option<T>>, i: usize, j: usize)
    requires
        i < old(slots)@.len(),
        j < old(slots)@.len(),
        i != j,
    ensures
        final(slots)@ == old(slots)@.update(i as int, old(slots)@[j as int]).update(
            j as int,
            old(slots)@[i as int],
        ),
{
    let a = slots[i].take();
    let b = slots[j].take();
    slots[i] = b;
    slots[j] = a;
}

proof fn lemma_items_swap<T>(slots: Seq<Option<T>>, i: int, j: int)
    requires
        0 <= i < slots.len(),
        0 <= j < slots.len(),
        all_filled(slots),
    ensures
        ({
            let t = slots.update(i, slots[j]).update(j, slots[i]);
            let s = slot_items(slots);
            &&& all_filled(t)
            &&& slot_items(t) =~= s.update(i, s[j]).update(j, s[i])
        }),
{
    let t = slots.update(i, slots[j]).update(j, slots[i]);
    assert forall|k: int| 0 <= k < t.len() implies (#[trigger] t[k]).is_some() by {
        if k != i && k != j {
            assert(t[k] == slots[k]);
        }
    }
}

/// A max-priority buffer of items.
pub struct PriorityBuffer<T: Prioritized> {
    slots: Vec<Option<T>>,
}

impl<T: Prioritized> PriorityBuffer<T> {
    /// Every slot holds an item, in heap order.
    #[verifier::type_invariant]
    closed spec fn inv(&self) -> bool {
        &&& all_filled(self.slots@)
        &&& heap_ordered(slot_items(self.slots@))
    }

    /// The items held, as a multiset.
    pub closed spec fn contents(&self) -> Multiset<T> {
        slot_items(self.slots@).to_multiset()
    }

    /// `x` is one of the highest-ranked items of `m`.
    pub open spec fn is_top_of(x: T, m: Multiset<T>) -> bool {
        &&& m.count(x) > 0
        &&& forall|y: T| m.count(y) > 0 ==> !rank_lt(x.rank(), #[trigger] y.rank())
    }

    proof fn lemma_top(s: Seq<T>)
        requires
            heap_ordered(s),
            s.len() > 0,
        ensures
            Self::is_top_of(s[0], s.to_multiset()),
    {
        assert(s.to_multiset().count(s[0]) > 0) by {
            assert(s.contains(s[0]));
        }
        assert forall|y: T| s.to_multiset().count(y) > 0 implies !rank_lt(
            s[0].rank(),
            #[trigger] y.rank(),
        ) by {
            assert(s.contains(y));
            let k = choose|k: int| 0 <= k < s.len() && s[k] == y;
            lemma_root_is_top(s, k);
        }
    }

    /// An empty buffer.
    pub fn new() -> (b: Self)
        ensures
            b.contents() =~= Multiset::<T>::empty(),
    {
        let b = PriorityBuffer { slots: Vec::new() };
        assert(slot_items(b.slots@) =~= Seq::<T>::empty());
        b
    }

    /// An empty buffer with room for `capacity` items.
    pub fn with_capacity(capacity: usize) -> (b: Self)
        ensures
            b.contents() =~= Multiset::<T>::empty(),
    {
        let b = PriorityBuffer { slots: Vec::with_capacity(capacity) };
        assert(slot_items(b.slots@) =~= Seq::<T>::empty());
        b
    }

    /// The number of items held.
    pub fn len(&self) -> (r: usize)
        ensures
            r == self.contents().len(),
    {
        self.slots.len()
    }

    /// Whether no item is held.
    pub fn is_empty(&self) -> (r: bool)
        ensures
            r == (self.contents().len() == 0),
    {
        self.slots.len() == 0
    }

    /// Whether the item in slot `a` ranks below the one in slot `b`.
    fn slot_below(slots: &Vec<Option<T>>, a: usize, b: usize) -> (r: bool)
        requires
            a < slots@.len(),
            b < slots@.len(),
            all_filled(slots@),
        ensures
            r == below(slot_items(slots@)[a as int], slot_items(slots@)[b as int]),
    {
        let x = slots[a].as_ref().unwrap();
        let y = slots[b].as_ref().unwrap();
        x.ranks_below(y)
    }

    /// Adds `x`.
    pub fn push(&mut self, x: T)
        ensures
            final(self).contents() =~= old(self).contents().insert(x),
    {
        proof {
            use_type_invariant(&*self);
        }
        let mut slots: Vec<Option<T>> = Vec::new();
        std::mem::swap(&mut slots, &mut self.slots);
        let ghost old_items = slot_items(slots@);
        slots.push(Some(x));
        assert(slot_items(slots@) =~= old_items.push(x));
        let n = slots.len();
        let mut i = n - 1;
        while i > 0
            invariant
                n == slots@.len(),
                i < n,
                all_filled(slots@),
                slot_items(slots@).to_multiset() =~= old_items.to_multiset().insert(x),
                forall|j: int|
                    0 < j < n && j != i ==> !below(
                        slot_items(slots@)[parent(j)],
                        #[trigger] slot_items(slots@)[j],
                    ),
                i > 0 ==> forall|c: int|
                    0 < c < n && parent(c) == i ==> !below(
                        slot_items(slots@)[parent(i as int)],
                        #[trigger] slot_items(slots@)[c],
                    ),
            ensures
                all_filled(slots@),
                slot_items(slots@).to_multiset() =~= old_items.to_multiset().insert(x),
                heap_ordered(slot_items(slots@)),
            decreases i,
        {
            let p = (i - 1) / 2;
            if Self::slot_below(&slots, p, i) {
                let ghost s = slot_items(slots@);
                let ghost before = slots@;
                swap_slots(&mut slots, p, i);
                proof {
                    lemma_items_swap(before, p as int, i as int);
                    lemma_swap_multiset(s, p as int, i as int);
                    let t = slot_items(slots@);
                    assert(t =~= s.update(p as int, s[i as int]).update(i as int, s[p as int]));
                    assert forall|j: int| 0 < j < n && j != p implies !below(
                        t[parent(j)],
                        #[trigger] t[j],
                    ) by {
                        if j == i {
                            lemma_rank_order(s[p as int].rank(), s[i as int].rank(), s[i as int].rank());
                        } else if parent(j) == i {
                            assert(!below(s[parent(i as int)], s[j]));
                        } else if parent(j) == p {
                            assert(!below(s[p as int], s[j]));
                            lemma_not_below(s[i as int].rank(), s[p as int].rank(), s[j].rank());
                        } else {
                            assert(t[j] == s[j]);
                            assert(t[parent(j)] == s[parent(j)]);
                        }
                    }
                    if p > 0 {
                        assert forall|c: int| 0 < c < n && parent(c) == p implies !below(
                            t[parent(p as int)],
                            #[trigger] t[c],
                        ) by {
                            assert(!below(s[parent(p as int)], s[p as int]));
                            if c == i {
                            } else {
                                assert(!below(s[p as int], s[c]));
                                lemma_not_below(s[parent(p as int)].rank(), s[p as int].rank(), s[c].rank());
                            }
                        }
                    }
                }
                i = p;
            } else {
                proof {
                    let s = slot_items(slots@);
                    assert forall|j: int| 0 < j < n implies !below(s[parent(j)], #[trigger] s[j]) by {
                    }
                }
                break;
            }
        }
        self.slots = slots;
    }

    /// Restores heap order when only the item in slot 0 may rank below one of
    /// its children: moves it down, swapping with its higher child.
    fn sift_down(slots: &mut Vec<Option<T>>)
        requires
            all_filled(old(slots)@),
            forall|j: int|
                0 < j < old(slots)@.len() && parent(j) != 0 ==> !below(
                    slot_items(old(slots)@)[parent(j)],
                    #[trigger] slot_items(old(slots)@)[j],
                ),
        ensures
            final(slots)@.len() == old(slots)@.len(),
            all_filled(final(slots)@),
            slot_items(final(slots)@).to_multiset() =~= slot_items(old(slots)@).to_multiset(),
            heap_ordered(slot_items(final(slots)@)),
    {
        let ghost orig = slot_items(slots@);
        let n = slots.len();
        let mut i: usize = 0;
        while i < n / 2
            invariant
                n == slots@.len(),
                i < n || n == 0,
                all_filled(slots@),
                slot_items(slots@).to_multiset() =~= orig.to_multiset(),
                forall|j: int|
                    0 < j < n && parent(j) != i ==> !below(
                        slot_items(slots@)[parent(j)],
                        #[trigger] slot_items(slots@)[j],
                    ),
                i > 0 ==> forall|c: int|
                    0 < c < n && parent(c) == i ==> !below(
                        slot_items(slots@)[parent(i as int)],
                        #[trigger] slot_items(slots@)[c],
                    ),
            ensures
                all_filled(slots@),
                slot_items(slots@).to_multiset() =~= orig.to_multiset(),
                heap_ordered(slot_items(slots@)),
            decreases n - i,
        {
            assert(2 * i + 1 < n) by (nonlinear_arith)
                requires
                    i < n / 2,
            ;
            let c1 = 2 * i + 1;
            let c2 = c1 + 1;
            let c = if c2 < n && Self::slot_below(slots, c1, c2) {
                c2
            } else {
                c1
            };
            let ghost s = slot_items(slots@);
            proof {
                assert(parent(c1 as int) == i);
                assert(parent(c2 as int) == i);
                assert forall|k: int| 0 < k < n && parent(k) == i implies (k == c1 || k == c2) by {
                }
                if c == c1 && c2 < n {
                    assert(!below(s[c1 as int], s[c2 as int]));
                }
                if c == c2 {
                    lemma_rank_order(s[c1 as int].rank(), s[c2 as int].rank(), s[c2 as int].rank());
                }
            }
            if Self::slot_below(slots, i, c) {
                let ghost before = slots@;
                swap_slots(slots, i, c);
                proof {
                    lemma_items_swap(before, i as int, c as int);
                    lemma_swap_multiset(s, i as int, c as int);
                    let t = slot_items(slots@);
                    assert(t =~= s.update(i as int, s[c as int]).update(c as int, s[i as int]));
                    assert forall|j: int| 0 < j < n && parent(j) != c implies !below(
                        t[parent(j)],
                        #[trigger] t[j],
                    ) by {
                        if j == c {
                            lemma_rank_order(s[i as int].rank(), s[c as int].rank(), s[c as int].rank());
                        } else if parent(j) == i {
                            assert(!below(s[c as int], s[j]));
                        } else if j == i {
                            assert(!below(s[parent(i as int)], s[c as int]));
                        } else {
                            assert(t[j] == s[j]);
                            assert(t[parent(j)] == s[parent(j)]);
                        }
                    }
                    assert forall|d: int| 0 < d < n && parent(d) == c implies !below(
                        t[parent(c as int)],
                        #[trigger] t[d],
                    ) by {
                        assert(!below(s[c as int], s[d]));
                    }
                }
                i = c;
            } else {
                proof {
                    assert forall|j: int| 0 < j < n implies !below(s[parent(j)], #[trigger] s[j]) by {
                        if parent(j) == i {
                            if j != c {
                                lemma_not_below(s[i as int].rank(), s[c as int].rank(), s[j].rank());
                            }
                        }
                    }
                }
                break;
            }
        }
    }

    /// Removes and returns one of the highest-ranked items, `None` when the
    /// buffer is empty.
    #[verifier::spinoff_prover]
    #[verifier::rlimit(40)]
    pub fn pop(&mut self) -> (r: Option<T>)
        ensures
            old(self).contents().len() == 0 ==> r.is_none() && final(self).contents()
                == old(self).contents(),
            old(self).contents().len() > 0 ==> r.is_some() && Self::is_top_of(
                r.unwrap(),
                old(self).contents(),
            ) && final(self).contents() =~= old(self).contents().remove(r.unwrap()),
    {
        proof {
            use_type_invariant(&*self);
        }
        if self.slots.len() == 0 {
            return None;
        }
        let mut slots: Vec<Option<T>> = Vec::new();
        std::mem::swap(&mut slots, &mut self.slots);
        let ghost s0 = slot_items(slots@);
        proof {
            Self::lemma_top(s0);
        }
        let last = slots.len() - 1;
        if last > 0 {
            let ghost before = slots@;
            swap_slots(&mut slots, 0, last);
            proof {
                lemma_items_swap(before, 0, last as int);
                lemma_swap_multiset(s0, 0, last as int);
            }
        }
        let ghost s1 = slot_items(slots@);
        assert(s1.to_multiset() =~= s0.to_multiset());
        assert(s1[last as int] == s0[0]);
        let top = slots.pop().unwrap().unwrap();
        assert(slot_items(slots@) =~= s1.drop_last());
        assert(s1 =~= s1.drop_last().push(top));
        let ghost rest = s1.drop_last();
        proof {
            assert forall|j: int| 0 < j < rest.len() && parent(j) != 0 implies !below(
                rest[parent(j)],
                #[trigger] rest[j],
            ) by {
                if last > 0 {
                    assert(rest[j] == s0[j]);
                    assert(rest[parent(j)] == s0[parent(j)]);
                }
            }
        }
        assert(s1.to_multiset() =~= rest.to_multiset().insert(top));
        assert(rest.to_multiset() =~= s0.to_multiset().remove(top));
        Self::sift_down(&mut slots);
        self.slots = slots;
        Some(top)
    }

    /// One of the highest-ranked items, without removing it; `None` when the
    /// buffer is empty.
    pub fn peek(&self) -> (r: Option<&T>)
        ensures
            self.contents().len() == 0 ==> r.is_none(),
            self.contents().len() > 0 ==> r.is_some() && Self::is_top_of(
                *r.unwrap(),
                self.contents(),
            ),
    {
        proof {
            use_type_invariant(self);
        }
        if self.slots.len() == 0 {
            None
        } else {
            proof {
                Self::lemma_top(slot_items(self.slots@));
            }
            self.slots[0].as_ref()
        }
    }
}

} // verus!
