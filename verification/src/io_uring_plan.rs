//! Planning of batched `statx` through io_uring for network mounts: which
//! entries go into which ring, which of them can be submitted at all, and
//! which entry a completion belongs to. The ring itself is driven outside.

use crate::fs_detect::IoStrategy;
use vstd::prelude::*;

verus! {

/// Depth of each io_uring submission/completion queue; larger batches are
/// split into chunks of this size, one ring per chunk.
pub const RING_SIZE: u32 = 256;

/// Smallest batch for which io_uring pays off: below it the ring setup and
/// submission cost more than one `fstatat` per entry.
pub const MIN_BATCH_FOR_IO_URING: usize = 8;

/// What is known of io_uring support on this kernel: nothing before the
/// first probe, then that probe's answer for good.
pub struct IoUringAvailability {
    known: Option<bool>,
}

impl IoUringAvailability {
    /// The probe's answer, once there was one.
    pub closed spec fn known(&self) -> Option<bool> {
        self.known
    }

    /// Nothing probed yet.
    pub fn new() -> (a: Self)
        ensures
            a.known() == None::<bool>,
    {
        IoUringAvailability { known: None }
    }

    /// Whether io_uring works: the answer already known, else the answer of
    /// `probe`, which is kept. So the probe runs at most once, and every call
    /// gives the answer of the first.
    pub fn io_uring_enabled<F: FnOnce() -> bool>(&mut self, probe: F) -> (r: bool)
        requires
            old(self).known() is None ==> call_requires(probe, ()),
        ensures
            final(self).known() == Some(r),
            old(self).known() is Some ==> r == old(self).known().unwrap(),
            old(self).known() is None ==> call_ensures(probe, (), r),
    {
        match self.known {
            Some(b) => b,
            None => {
                let b = probe();
                self.known = Some(b);
                b
            },
        }
    }
}

/// Whether a directory of `batch_len` entries has its metadata fetched
/// through io_uring: only on network mounts, only where io_uring works, and
/// only for batches of at least `MIN_BATCH_FOR_IO_URING` entries.
pub fn use_io_uring_for(batch_len: usize, strategy: IoStrategy, io_uring_available: bool) -> (r:
    bool)
    ensures
        r == (strategy == IoStrategy::NetworkAsync && io_uring_available && batch_len
            >= MIN_BATCH_FOR_IO_URING),
{
    match strategy {
        IoStrategy::NetworkAsync => io_uring_available && batch_len >= MIN_BATCH_FOR_IO_URING,
        _ => false,
    }
}

/// The number of ring-sized chunks that cover `n` entries.
pub open spec fn chunk_count(n: int) -> int {
    n / 256 + if n % 256 != 0 {
        1int
    } else {
        0int
    }
}

/// The chunks `[start, end)` that cover `0..n` in order: chunk `k` starts at
/// `k * RING_SIZE` and ends `RING_SIZE` later, the last one at `n`.
pub fn statx_chunks(n: usize) -> (r: Vec<(usize, usize)>)
    ensures
        r@.len() == chunk_count(n as int),
        forall|k: int|
            0 <= k < r@.len() ==> #[trigger] r@[k] == (
                (k * 256) as usize,
                (if (k + 1) * 256 <= n {
                    (k + 1) * 256
                } else {
                    n as int
                }) as usize,
            ),
{
    let ring = RING_SIZE as usize;
    let count = n / ring + if n % ring != 0 {
        1
    } else {
        0
    };
    let mut out: Vec<(usize, usize)> = Vec::new();
    let mut k: usize = 0;
    while k < count
        invariant
            ring == 256,
            count == chunk_count(n as int),
            k <= count,
            out@.len() == k,
            forall|j: int|
                0 <= j < k ==> #[trigger] out@[j] == (
                    (j * 256) as usize,
                    (if (j + 1) * 256 <= n {
                        (j + 1) * 256
                    } else {
                        n as int
                    }) as usize,
                ),
        decreases count - k,
    {
        let start = k * ring;
        let end = if n - start >= ring {
            start + ring
        } else {
            n
        };
        out.push((start, end));
        k = k + 1;
    }
    out
}

/// The name holds a NUL byte (and cannot become a C string).
pub open spec fn has_nul(name: Seq<u8>) -> bool {
    exists|i: int| 0 <= i < name.len() && name[i] == 0
}

fn contains_nul(name: &Vec<u8>) -> (r: bool)
    ensures
        r == has_nul(name@),
{
    let mut i: usize = 0;
    while i < name.len()
        invariant
            i <= name@.len(),
            forall|j: int| 0 <= j < i ==> name@[j] != 0,
        decreases name@.len() - i,
    {
        if name[i] == 0 {
            return true;
        }
        i = i + 1;
    }
    false
}

/// The entries of a chunk that get a `statx` submission, in order: those
/// whose name holds no NUL byte. Position `k` of the result is the
/// submission's local index (its `user_data`); the value is the entry index.
pub fn submission_plan(names: &Vec<Vec<u8>>) -> (r: Vec<usize>)
    ensures
        forall|k: int| 0 <= k < r@.len() ==> #[trigger] r@[k] < names@.len(),
        forall|k: int| 0 <= k < r@.len() ==> !has_nul(names@[#[trigger] r@[k] as int]@),
        forall|k: int, l: int| 0 <= k < l < r@.len() ==> #[trigger] r@[k] < #[trigger] r@[l],
        forall|e: int|
            0 <= e < names@.len() && !has_nul(#[trigger] names@[e]@) ==> r@.contains(e as usize),
{
    let mut out: Vec<usize> = Vec::new();
    let mut i: usize = 0;
    while i < names.len()
        invariant
            i <= names@.len(),
            forall|k: int| 0 <= k < out@.len() ==> #[trigger] out@[k] < i,
            forall|k: int| 0 <= k < out@.len() ==> !has_nul(names@[#[trigger] out@[k] as int]@),
            forall|k: int, l: int| 0 <= k < l < out@.len() ==> #[trigger] out@[k] < #[trigger] out@[l],
            forall|e: int|
                0 <= e < i && !has_nul(#[trigger] names@[e]@) ==> out@.contains(e as usize),
        decreases names@.len() - i,
    {
        if !contains_nul(&names[i]) {
            let ghost before = out@;
            out.push(i);
            assert forall|e: int| 0 <= e < i + 1 && !has_nul(#[trigger] names@[e]@) implies out@.contains(e as usize) by {
                if e < i {
                    let w = choose|w: int| 0 <= w < before.len() && before[w] == e as usize;
                    assert(out@[w] == e as usize);
                } else {
                    assert(out@[out@.len() - 1] == e as usize);
                }
            }
        }
        i = i + 1;
    }
    out
}

/// The entry that a completion fills: the one submitted under local index
/// `user_data`, when that index exists and the `statx` succeeded
/// (`result == 0`); `None` otherwise, and the entry then keeps no `statx`.
pub fn completion_target(local_to_entry: &Vec<usize>, user_data: u64, result: i32) -> (r: Option<
    usize,
>)
    ensures
        r == (if user_data < local_to_entry@.len() && result == 0 {
            Some(local_to_entry@[user_data as int])
        } else {
            None::<usize>
        }),
{
    let n = local_to_entry.len();
    if result == 0 && (user_data as u128) < (n as u128) {
        Some(local_to_entry[user_data as usize])
    } else {
        None
    }
}

} // verus!
