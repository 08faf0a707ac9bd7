//! The parallel walk's step after a directory was read: release its result
//! to the ordered output and schedule its children. The roots start the walk.

use crate::index_path::{IndexPath, INDEX_PATH_MAX_DEPTH};
use crate::ordered_queue::OrderedQueue;
use crate::priority_queue::PriorityQueue;
use crate::ordered::Ordered;
use crate::read_dir::{
    child_specs, child_weight, order_read_dir_result, output_child_count, weighted_children, ReadDir,
};
use crate::weighted::Weighted;
use vstd::prelude::*;

verus! {

/// Weight of the roots: half of `usize`, so that they are scheduled before
/// anything else and adding a child count to it cannot overflow.
pub const ROOT_WEIGHT: usize = usize::MAX >> 1;

/// The scheduling units that start a parallel walk: every root at path `[0]`
/// with `ROOT_WEIGHT`, in the given order.
pub fn root_work_items<S>(read_dir_specs: Vec<S>) -> (r: Vec<Weighted<S>>)
    ensures
        r@.len() == read_dir_specs@.len(),
        forall|k: int|
            0 <= k < r@.len() ==> {
                &&& (#[trigger] r@[k]).value == read_dir_specs@[k]
                &&& r@[k].index_path@ == seq![0usize]
                &&& r@[k].weight == ROOT_WEIGHT
            },
{
    let mut specs = read_dir_specs;
    let ghost orig = specs@;
    let n = specs.len();
    let mut rev: Vec<S> = Vec::new();
    while specs.len() > 0
        invariant
            specs.len() <= n,
            n == orig.len(),
            specs@ == orig.take(specs.len() as int),
            rev@.len() == n - specs.len(),
            forall|k: int| 0 <= k < rev@.len() ==> #[trigger] rev@[k] == orig[n - 1 - k],
        decreases specs.len(),
    {
        let s = specs.pop().unwrap();
        rev.push(s);
        assert(specs@ =~= orig.take(specs.len() as int));
    }
    let mut out: Vec<Weighted<S>> = Vec::new();
    while rev.len() > 0
        invariant
            rev@.len() <= n,
            n == orig.len(),
            forall|k: int| 0 <= k < rev@.len() ==> #[trigger] rev@[k] == orig[n - 1 - k],
            out@.len() == n - rev@.len(),
            forall|k: int|
                0 <= k < out@.len() ==> {
                    &&& (#[trigger] out@[k]).value == orig[k]
                    &&& out@[k].index_path@ == seq![0usize]
                    &&& out@[k].weight == ROOT_WEIGHT
                },
        decreases rev.len(),
    {
        let s = rev.pop().unwrap();
        let mut root: Vec<usize> = Vec::new();
        root.push(0);
        assert(root@ =~= seq![0usize]);
        out.push(Weighted::new(s, IndexPath::new(root), ROOT_WEIGHT));
    }
    out
}

/// The number of children that a read directory schedules itself: those of
/// `child_specs` when nothing was scheduled while streaming, none for a
/// streamed directory or an error.
pub open spec fn children_scheduled_now<R, S, E, Er>(result: Result<ReadDir<R, S, E>, Er>) -> int {
    match result {
        Ok(rd) => if rd.streamed_child_count == 0 {
            child_specs(rd.results_list@).len() as int
        } else {
            0
        },
        Err(_) => 0,
    }
}

/// The children to schedule once the directory's result went to the ordered
/// output: all of them, in order, when the send succeeded and there are
/// children to schedule; none otherwise.
pub fn children_to_schedule<S>(send_ok: bool, children: Option<Vec<Weighted<S>>>) -> (v: Vec<
    Weighted<S>,
>)
    ensures
        v@ == (match children {
            Some(c) => if send_ok {
                c@
            } else {
                Seq::empty()
            },
            None => Seq::empty(),
        }),
{
    match children {
        Some(c) => if send_ok {
            c
        } else {
            Vec::new()
        },
        None => Vec::new(),
    }
}

/// How many schedules succeeded when they were tried in order and stopped at
/// the first failure: all of them, or all but the last when the last failed.
pub open spec fn scheduled_count(outcomes: Seq<bool>) -> int {
    if outcomes.len() > 0 && !outcomes.last() {
        outcomes.len() - 1
    } else {
        outcomes.len() as int
    }
}

/// `handed` is the start of the children that the read directory schedules
/// itself: for a directory read with nothing streamed, its first
/// `handed.len()` child specs as scheduling units below `parent`, numbered
/// from 0, with the children's weight; for anything else, nothing.
pub open spec fn planned_prefix<R, S: Clone, E, Er>(
    handed: Seq<Weighted<S>>,
    result: Result<ReadDir<R, S, E>, Er>,
    parent: Seq<usize>,
    parent_weight: usize,
) -> bool {
    match result {
        Ok(rd) => if rd.streamed_child_count == 0 {
            &&& handed.len() <= child_specs(rd.results_list@).len()
            &&& weighted_children(
                handed,
                child_specs(rd.results_list@).take(handed.len() as int),
                0,
                parent,
                child_weight(parent_weight, rd.results_list@.len()),
            )
        } else {
            handed.len() == 0
        },
        Err(_) => handed.len() == 0,
    }
}

/// What `publish_read_dir` did.
pub struct PublishReport<R, S, E, Er> {
    /// Whether the result channel took the result.
    pub sent: bool,
    /// How many children the work queue took.
    pub scheduled: usize,
    /// The result handed to the result channel (once).
    pub result_sent: Ghost<Ordered<Result<ReadDir<R, S, E>, Er>>>,
    /// The children handed to the work queue, in the order of the calls.
    pub handed: Ghost<Seq<Weighted<S>>>,
    /// Whether the work queue took each of them.
    pub outcomes: Ghost<Seq<bool>>,
}

/// After the directory at `index_path` (scheduled with `parent_weight`) was
/// read: its result goes to the ordered output once, with its child count;
/// only when that send succeeded are its children scheduled, in order,
/// stopping at the first failed schedule (the walk is then being torn down);
/// in every case the directory's own work item is completed. The report says
/// what was handed to each channel and what each accepted; whether a channel
/// accepts depends on the other threads.
pub fn publish_read_dir<R: Send, S: Clone + Send, E: Send, Er: Send>(
    spec_queue: &PriorityQueue<S>,
    result_queue: &OrderedQueue<Result<ReadDir<R, S, E>, Er>>,
    read_dir_result: Result<ReadDir<R, S, E>, Er>,
    index_path: &IndexPath,
    parent_weight: usize,
) -> (r: PublishReport<R, S, E, Er>)
    requires
        index_path@.len() < INDEX_PATH_MAX_DEPTH,
    ensures
        r.result_sent@.value == read_dir_result,
        r.result_sent@.index_path@ == index_path@,
        r.result_sent@.child_count == output_child_count(read_dir_result),
        r.outcomes@.len() == r.handed@.len(),
        planned_prefix(r.handed@, read_dir_result, index_path@, parent_weight),
        !r.sent ==> r.handed@.len() == 0,
        r.sent && r.handed@.len() < children_scheduled_now(read_dir_result) ==> r.outcomes@.len()
            > 0 && !r.outcomes@.last(),
        forall|k: int| 0 <= k < r.outcomes@.len() - 1 ==> #[trigger] r.outcomes@[k],
        r.scheduled == scheduled_count(r.outcomes@),
{
    let (ordered, children) = order_read_dir_result(read_dir_result, index_path, parent_weight);
    let ghost result_sent = ordered;
    let send_ok = result_queue.push(ordered).is_ok();
    let mut to_schedule = children_to_schedule(send_ok, children);
    let ghost planned = to_schedule@;
    let n = to_schedule.len();
    let mut rev: Vec<Weighted<S>> = Vec::new();
    while to_schedule.len() > 0
        invariant
            to_schedule.len() + rev.len() == n,
            n == planned.len(),
            to_schedule@ == planned.take(to_schedule.len() as int),
            forall|j: int| 0 <= j < rev.len() ==> #[trigger] rev@[j] == planned[n - 1 - j],
        decreases to_schedule.len(),
    {
        let c = to_schedule.pop().unwrap();
        rev.push(c);
        assert(to_schedule@ =~= planned.take(to_schedule.len() as int));
    }
    let ghost mut handed: Seq<Weighted<S>> = Seq::empty();
    let ghost mut outcomes: Seq<bool> = Seq::empty();
    let mut scheduled: usize = 0;
    while rev.len() > 0
        invariant_except_break
            forall|k: int| 0 <= k < outcomes.len() ==> #[trigger] outcomes[k],
            scheduled == outcomes.len(),
        invariant
            rev.len() + handed.len() == n,
            n == planned.len(),
            forall|j: int| 0 <= j < rev.len() ==> #[trigger] rev@[j] == planned[n - 1 - j],
            handed == planned.take(handed.len() as int),
            outcomes.len() == handed.len(),
        ensures
            handed == planned.take(handed.len() as int),
            outcomes.len() == handed.len(),
            forall|k: int| 0 <= k < outcomes.len() - 1 ==> #[trigger] outcomes[k],
            handed.len() < n ==> outcomes.len() > 0 && !outcomes.last(),
            scheduled == scheduled_count(outcomes),
        decreases rev.len(),
    {
        let c = rev.pop().unwrap();
        proof {
            assert(c == planned[handed.len() as int]);
            handed = handed.push(c);
            assert(handed =~= planned.take(handed.len() as int));
        }
        let ok = spec_queue.push(c).is_ok();
        proof {
            outcomes = outcomes.push(ok);
        }
        if !ok {
            break;
        }
        scheduled = scheduled + 1;
    }
    spec_queue.complete_item();
    PublishReport {
        sent: send_ok,
        scheduled,
        result_sent: Ghost(result_sent),
        handed: Ghost(handed),
        outcomes: Ghost(outcomes),
    }
}

} // verus!
