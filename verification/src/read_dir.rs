//! Result of reading one directory, and what the walk derives from it: the
//! child directories to read next, as plain specs (serial walk) or as
//! weighted, positioned scheduling units (parallel walk).

use crate::index_path::{IndexPath, INDEX_PATH_MAX_DEPTH};
use crate::ordered::Ordered;
use crate::weighted::Weighted;
use vstd::prelude::*;

verus! {

/// A directory read: the client's per-directory state, one result per entry
/// (an entry that leads to a child directory to read carries that child's
/// spec), and how many child reads were already scheduled while the
/// directory was still being enumerated.
pub struct ReadDir<R, S, E> {
    pub read_dir_state: R,
    pub results_list: Vec<Result<Option<S>, E>>,
    pub streamed_child_count: usize,
}

/// The specs of the child directories that the entries lead to, in entry
/// order (failed entries and entries that lead nowhere are skipped).
pub open spec fn child_specs<S, E>(results: Seq<Result<Option<S>, E>>) -> Seq<S>
    decreases results.len(),
{
    if results.len() == 0 {
        Seq::empty()
    } else {
        let prev = child_specs(results.drop_last());
        match results.last() {
            Ok(Some(s)) => prev.push(s),
            _ => prev,
        }
    }
}

/// The entry leads to a child directory to read: it was read without error
/// and carries that child's spec.
pub open spec fn carries_spec<S, E>(entry: Result<Option<S>, E>) -> bool {
    entry matches Ok(Some(_))
}

/// How many of the entries carry a child spec.
pub open spec fn spec_entry_count<S, E>(results: Seq<Result<Option<S>, E>>) -> nat {
    results.filter(|r: Result<Option<S>, E>| carries_spec(r)).len()
}

/// No child is lost or invented: there is one child spec per entry that
/// carries one, and the entry at position `k` that carries the spec `s` puts
/// `s` at the position given by the number of spec-carrying entries before
/// it (so children keep the entries' order).
pub proof fn lemma_child_specs_keep_every_spec<S, E>(results: Seq<Result<Option<S>, E>>)
    ensures
        child_specs(results).len() == spec_entry_count(results),
        forall|k: int|
            0 <= k < results.len() ==> (#[trigger] results[k] matches Ok(Some(s)) ==> child_specs(
                results,
            )[spec_entry_count(results.take(k)) as int] == s),
    decreases results.len(),
{
    reveal(Seq::filter);
    if results.len() > 0 {
        let p = results.drop_last();
        lemma_child_specs_keep_every_spec(p);
        assert forall|k: int|
            0 <= k < results.len() implies (#[trigger] results[k] matches Ok(Some(s))
            ==> child_specs(results)[spec_entry_count(results.take(k)) as int] == s) by {
            if k < results.len() - 1 {
                assert(results.take(k) =~= p.take(k));
                assert(results[k] == p[k]);
                if results[k] matches Ok(Some(s)) {
                    lemma_count_prefix(p, k);
                }
            } else {
                assert(results.take(k) =~= p);
            }
        }
    }
}

/// Fewer entries carry a spec before position `k` than in the whole
/// sequence, when the entry at `k` carries one.
proof fn lemma_count_prefix<S, E>(results: Seq<Result<Option<S>, E>>, k: int)
    requires
        0 <= k < results.len(),
        carries_spec(results[k]),
    ensures
        spec_entry_count(results.take(k)) < spec_entry_count(results),
    decreases results.len(),
{
    reveal(Seq::filter);
    let p = results.drop_last();
    if k == results.len() - 1 {
        assert(results.take(k) =~= p);
    } else {
        assert(results.take(k) =~= p.take(k));
        lemma_count_prefix(p, k);
    }
}

/// The weight of the children of a directory: its own weight plus its number
/// of entries, saturating at `usize::MAX`.
pub open spec fn child_weight(parent_weight: usize, pipe_size: nat) -> usize {
    if parent_weight + pipe_size > usize::MAX {
        usize::MAX
    } else {
        (parent_weight + pipe_size) as usize
    }
}

/// Weight inheritance: children are never lighter than their parent, and
/// carry the parent's weight plus the parent's entry count unless that sum
/// saturates.
pub proof fn lemma_child_weight_inherits(parent_weight: usize, pipe_size: nat)
    ensures
        child_weight(parent_weight, pipe_size) >= parent_weight,
        parent_weight + pipe_size <= usize::MAX ==> child_weight(parent_weight, pipe_size)
            == parent_weight + pipe_size,
{
}

/// `r` lists the children `cs[skip..]` as scheduling units: the child at
/// position `skip + k` gets the path `parent` extended by `skip + k`, and
/// every child gets `weight`.
pub open spec fn weighted_children<S: Clone>(
    r: Seq<Weighted<S>>,
    cs: Seq<S>,
    skip: int,
    parent: Seq<usize>,
    weight: usize,
) -> bool {
    &&& r.len() == (if cs.len() > skip {
        cs.len() - skip
    } else {
        0
    })
    &&& forall|k: int|
        0 <= k < r.len() ==> {
            &&& cloned(cs[skip + k], #[trigger] r[k].value)
            &&& r[k].index_path@ == parent.push((skip + k) as usize)
            &&& r[k].weight == weight
        }
}

/// The children scheduled from a directory read are the child specs that
/// `read_children_specs` lists, after the `skip` streamed ones: the `k`-th
/// scheduled child and the `(skip + k)`-th listed spec are copies of the same
/// entry's spec, at position `skip + k` below the parent, and they are equal
/// wherever cloning the spec type gives an equal value.
pub proof fn lemma_weighted_children_match_read_children<S: Clone, E>(
    results: Seq<Result<Option<S>, E>>,
    weighted: Seq<Weighted<S>>,
    listed: Seq<S>,
    skip: int,
    parent: Seq<usize>,
    weight: usize,
)
    requires
        0 <= skip,
        weighted_children(weighted, child_specs(results), skip, parent, weight),
        listed.len() == child_specs(results).len(),
        forall|k: int| 0 <= k < listed.len() ==> cloned(child_specs(results)[k], #[trigger] listed[k]),
    ensures
        weighted.len() == (if listed.len() > skip {
            listed.len() - skip
        } else {
            0
        }),
        forall|k: int|
            0 <= k < weighted.len() ==> {
                &&& cloned(child_specs(results)[skip + k], #[trigger] weighted[k].value)
                &&& cloned(child_specs(results)[skip + k], listed[skip + k])
                &&& weighted[k].index_path@ == parent.push((skip + k) as usize)
            },
        (forall|a: S, b: S| #[trigger] cloned(a, b) ==> a == b) ==> forall|k: int|
            0 <= k < weighted.len() ==> #[trigger] weighted[k].value == listed[skip + k],
{
    assert forall|k: int| #![trigger weighted[k]] 0 <= k < weighted.len() implies cloned(
        child_specs(results)[skip + k],
        listed[skip + k],
    ) by {
        assert(0 <= skip + k < listed.len());
    }
    if forall|a: S, b: S| #[trigger] cloned(a, b) ==> a == b {
        assert forall|k: int| 0 <= k < weighted.len() implies #[trigger] weighted[k].value
            == listed[skip + k] by {
            assert(0 <= skip + k < listed.len());
            assert(cloned(child_specs(results)[skip + k], weighted[k].value));
            assert(cloned(child_specs(results)[skip + k], listed[skip + k]));
        }
    }
}

impl<R, S: Clone, E> ReadDir<R, S, E> {
    /// A directory read with nothing scheduled early.
    pub fn new(read_dir_state: R, results_list: Vec<Result<Option<S>, E>>) -> (rd: Self)
        ensures
            rd.read_dir_state == read_dir_state,
            rd.results_list@ == results_list@,
            rd.streamed_child_count == 0,
    {
        ReadDir { read_dir_state, results_list, streamed_child_count: 0 }
    }

    /// The specs of the child directories to read, in entry order.
    pub fn read_children_specs(&self) -> (r: Vec<S>)
        ensures
            r.len() == child_specs(self.results_list@).len(),
            forall|k: int|
                0 <= k < r.len() ==> cloned(child_specs(self.results_list@)[k], #[trigger] r@[k]),
    {
        let mut out: Vec<S> = Vec::new();
        let n = self.results_list.len();
        let mut i: usize = 0;
        while i < n
            invariant
                0 <= i <= n,
                n == self.results_list@.len(),
                out.len() == child_specs(self.results_list@.take(i as int)).len(),
                forall|k: int|
                    0 <= k < out.len() ==> cloned(
                        child_specs(self.results_list@.take(i as int))[k],
                        #[trigger] out@[k],
                    ),
            decreases n - i,
        {
            let ghost prev = self.results_list@.take(i as int);
            assert(self.results_list@.take(i + 1).drop_last() =~= prev);
            assert(self.results_list@.take(i + 1).last() == self.results_list@[i as int]);
            match &self.results_list[i] {
                Ok(Some(s)) => {
                    out.push(s.clone());
                },
                _ => {},
            }
            i = i + 1;
        }
        assert(self.results_list@.take(n as int) =~= self.results_list@);
        out
    }

    /// The children to schedule below `index_path`, skipping the ones that
    /// were already scheduled while streaming. Children are numbered in
    /// entry order without gaps (0, 1, 2, ...), and all get the weight of
    /// this directory plus its number of entries ("flood the big pipes
    /// first": a directory with many entries puts its whole subtree ahead).
    pub fn weighted_children_specs(&self, index_path: &IndexPath, parent_weight: usize) -> (r: Vec<
        Weighted<S>,
    >)
        requires
            index_path@.len() < INDEX_PATH_MAX_DEPTH,
        ensures
            weighted_children(
                r@,
                child_specs(self.results_list@),
                self.streamed_child_count as int,
                index_path@,
                child_weight(parent_weight, self.results_list@.len()),
            ),
    {
        let skip = self.streamed_child_count;
        let pipe_size = self.results_list.len();
        let weight = parent_weight.saturating_add(pipe_size);
        let mut specs: Vec<Weighted<S>> = Vec::with_capacity(pipe_size.saturating_sub(skip));
        let mut subdir_counter: usize = 0;
        let mut i: usize = 0;
        while i < pipe_size
            invariant
                0 <= i <= pipe_size,
                pipe_size == self.results_list@.len(),
                skip == self.streamed_child_count,
                weight == child_weight(parent_weight, pipe_size as nat),
                index_path@.len() < INDEX_PATH_MAX_DEPTH,
                subdir_counter == child_specs(self.results_list@.take(i as int)).len(),
                subdir_counter <= i,
                weighted_children(
                    specs@,
                    child_specs(self.results_list@.take(i as int)),
                    skip as int,
                    index_path@,
                    weight,
                ),
            decreases pipe_size - i,
        {
            let ghost prev = self.results_list@.take(i as int);
            assert(self.results_list@.take(i + 1).drop_last() =~= prev);
            assert(self.results_list@.take(i + 1).last() == self.results_list@[i as int]);
            match &self.results_list[i] {
                Ok(Some(s)) => {
                    if subdir_counter >= skip {
                        let spec = s.clone();
                        specs.push(Weighted::new(spec, index_path.adding(subdir_counter), weight));
                    }
                    subdir_counter = subdir_counter + 1;
                },
                _ => {},
            }
            i = i + 1;
        }
        assert(self.results_list@.take(pipe_size as int) =~= self.results_list@);
        specs
    }
}

/// How many children a read directory puts in the output tree: the children
/// it schedules now when nothing was streamed, else the streamed ones; an
/// error has none.
pub open spec fn output_child_count<R, S, E, Er>(result: Result<ReadDir<R, S, E>, Er>) -> int {
    match result {
        Ok(rd) => if rd.streamed_child_count == 0 {
            child_specs(rd.results_list@).len() as int
        } else {
            rd.streamed_child_count as int
        },
        Err(_) => 0,
    }
}

/// Prepares the result of reading the directory at `index_path` for the
/// ordered output: it goes out with its number of children in the walk
/// tree, and, when nothing was scheduled while streaming, the children to
/// schedule now (`None` for an error or a streamed directory).
pub fn order_read_dir_result<R, S: Clone, E, Er>(
    read_dir_result: Result<ReadDir<R, S, E>, Er>,
    index_path: &IndexPath,
    parent_weight: usize,
) -> (r: (Ordered<Result<ReadDir<R, S, E>, Er>>, Option<Vec<Weighted<S>>>))
    requires
        index_path@.len() < INDEX_PATH_MAX_DEPTH,
    ensures
        r.0.value == read_dir_result,
        r.0.index_path@ == index_path@,
        r.0.child_count == output_child_count(read_dir_result),
        match read_dir_result {
            Ok(rd) => if rd.streamed_child_count == 0 {
                &&& r.1.is_some()
                &&& weighted_children(
                    r.1.unwrap()@,
                    child_specs(rd.results_list@),
                    0,
                    index_path@,
                    child_weight(parent_weight, rd.results_list@.len()),
                )
            } else {
                r.1.is_none()
            },
            Err(_) => r.1.is_none(),
        },
{
    let (child_count, children) = match &read_dir_result {
        Ok(rd) => {
            if rd.streamed_child_count == 0 {
                let w = rd.weighted_children_specs(index_path, parent_weight);
                (w.len(), Some(w))
            } else {
                (rd.streamed_child_count, None)
            }
        },
        Err(_) => (0, None),
    };
    (Ordered::new(read_dir_result, index_path.clone(), child_count), children)
}

/// Serial walk: puts the children of a read directory on the stack of
/// directories still to read, last child deepest, so that the next pops
/// return them in entry order (depth-first preorder).
pub fn push_children<R, S: Clone, E>(stack: &mut Vec<S>, read_dir: &ReadDir<R, S, E>)
    ensures
        ({
            let cs = child_specs(read_dir.results_list@);
            &&& final(stack)@.len() == old(stack)@.len() + cs.len()
            &&& final(stack)@.take(old(stack)@.len() as int) == old(stack)@
            &&& forall|k: int|
                0 <= k < cs.len() ==> cloned(
                    cs[k],
                    #[trigger] final(stack)@[final(stack)@.len() - 1 - k],
                )
        }),
{
    let mut children = read_dir.read_children_specs();
    let ghost orig = children@;
    let ghost base = stack@;
    let n = children.len();
    while children.len() > 0
        invariant
            children.len() <= n,
            n == orig.len(),
            children@ == orig.take(children.len() as int),
            stack@.len() == base.len() + (n - children.len()),
            stack@.take(base.len() as int) == base,
            forall|k: int|
                children.len() <= k < n ==> #[trigger] stack@[base.len() + (n - 1 - k)]
                    == orig[k],
        decreases children.len(),
    {
        let ghost before = stack@;
        let ghost c_before = children@;
        let x = children.pop().unwrap();
        assert(x == orig[children.len() as int]);
        stack.push(x);
        proof {
            assert(stack@.take(base.len() as int) =~= before.take(base.len() as int));
            assert(children@ =~= orig.take(children.len() as int));
        }
    }
    proof {
        let cs = child_specs(read_dir.results_list@);
        assert forall|k: int| 0 <= k < cs.len() implies cloned(
            cs[k],
            #[trigger] stack@[stack@.len() - 1 - k],
        ) by {
            assert(stack@[base.len() + (n - 1 - k)] == orig[k]);
        }
    }
}

} // verus!
