//! File-system type detection results and the per-device I/O strategy cache.
//!
//! The `statfs(2)` magic number of a mount decides how directory metadata is
//! fetched: network mounts use batched `statx` through io_uring, FAT-family
//! mounts skip link-count queries, everything else is read with `fstatat`.

use std::collections::HashMap;
use vstd::prelude::*;

verus! {

/// `SMB_SUPER_MAGIC`: Linux SMB1 client mount.
pub const SMB_SUPER_MAGIC: i64 = 0x517B;
/// `NFS_SUPER_MAGIC`: NFSv2/v3/v4.
pub const NFS_SUPER_MAGIC: i64 = 0x6969;
/// `CIFS_MAGIC_NUMBER`: Linux CIFS/SMB2/SMB3 client mount.
pub const CIFS_MAGIC_NUMBER: i64 = 0xFF534D42;
/// `EXT4_SUPER_MAGIC` (also ext2/ext3).
pub const EXT4_SUPER_MAGIC: i64 = 0xEF53;
/// `XFS_SUPER_MAGIC`.
pub const XFS_SUPER_MAGIC: i64 = 0x58465342;
/// `BTRFS_SUPER_MAGIC`.
pub const BTRFS_SUPER_MAGIC: i64 = 0x9123683E;
/// `TMPFS_MAGIC`.
pub const TMPFS_MAGIC: i64 = 0x01021994;
/// `OVERLAYFS_SUPER_MAGIC`.
pub const OVERLAYFS_SUPER_MAGIC: i64 = 0x794C7630;
/// `MSDOS_SUPER_MAGIC`: FAT12/16/32.
pub const MSDOS_SUPER_MAGIC: i64 = 0x4D44;
/// `EXFAT_SUPER_MAGIC`.
pub const EXFAT_SUPER_MAGIC: i64 = 0x2011BAB0;

/// How the metadata of a directory's entries is fetched.
#[derive(Debug, Clone, Copy, PartialEq, Eq, Structural)]
pub enum IoStrategy {
    /// Local file system: one `fstatat` per entry.
    LocalSync,
    /// Network mount (SMB/NFS/CIFS): batched `statx` through io_uring.
    NetworkAsync,
    /// FAT family: no hard links, `st_nlink` is always 1, skip the query.
    SkipNlinks,
}

/// The strategy that a `statfs` magic number calls for.
pub open spec fn spec_strategy_from_ftype(f_type: i64) -> IoStrategy {
    if f_type == SMB_SUPER_MAGIC || f_type == NFS_SUPER_MAGIC || f_type == CIFS_MAGIC_NUMBER {
        IoStrategy::NetworkAsync
    } else if f_type == MSDOS_SUPER_MAGIC || f_type == EXFAT_SUPER_MAGIC {
        IoStrategy::SkipNlinks
    } else {
        IoStrategy::LocalSync
    }
}

/// Which file systems get which strategy: exactly the network file systems
/// (SMB `0x517B`, NFS `0x6969`, CIFS `0xFF534D42`) are read through io_uring,
/// exactly the FAT family (MSDOS `0x4D44`, exFAT `0x2011BAB0`) skips
/// link-count queries, and every other file system, known or not, is read
/// with per-entry `fstatat` and real link counts.
pub proof fn lemma_strategy_by_file_system(f_type: i64)
    ensures
        (spec_strategy_from_ftype(f_type) == IoStrategy::NetworkAsync) <==> (f_type == 0x517B
            || f_type == 0x6969 || f_type == 0xFF534D42),
        (spec_strategy_from_ftype(f_type) == IoStrategy::SkipNlinks) <==> (f_type == 0x4D44
            || f_type == 0x2011BAB0),
        (spec_strategy_from_ftype(f_type) == IoStrategy::LocalSync) <==> !(f_type == 0x517B
            || f_type == 0x6969 || f_type == 0xFF534D42 || f_type == 0x4D44 || f_type
            == 0x2011BAB0),
{
}

/// Maps a `statfs` `f_type` to a strategy: network file systems get
/// `NetworkAsync`, FAT/exFAT get `SkipNlinks`, known local and unknown
/// file systems get the conservative `LocalSync`.
pub fn strategy_from_ftype(f_type: i64) -> (s: IoStrategy)
    ensures
        s == spec_strategy_from_ftype(f_type),
{
    if f_type == SMB_SUPER_MAGIC || f_type == NFS_SUPER_MAGIC || f_type == CIFS_MAGIC_NUMBER {
        IoStrategy::NetworkAsync
    } else if f_type == MSDOS_SUPER_MAGIC || f_type == EXFAT_SUPER_MAGIC {
        IoStrategy::SkipNlinks
    } else if f_type == EXT4_SUPER_MAGIC || f_type == XFS_SUPER_MAGIC || f_type
        == BTRFS_SUPER_MAGIC || f_type == TMPFS_MAGIC || f_type == OVERLAYFS_SUPER_MAGIC {
        IoStrategy::LocalSync
    } else {
        IoStrategy::LocalSync
    }
}

/// What `detect` returns and the cache it leaves, from the cache before the
/// call: no device gives `LocalSync` and no change; a cached device gives its
/// cached strategy and no change; otherwise the strategy of `f_type`
/// (`LocalSync` when unknown) is returned and cached.
pub open spec fn spec_detect(cache: Map<u64, IoStrategy>, dev: Option<u64>, f_type: Option<i64>) -> (
    IoStrategy,
    Map<u64, IoStrategy>,
) {
    match dev {
        None => (IoStrategy::LocalSync, cache),
        Some(d) => if cache.contains_key(d) {
            (cache[d], cache)
        } else {
            let s = match f_type {
                Some(t) => spec_strategy_from_ftype(t),
                None => IoStrategy::LocalSync,
            };
            (s, cache.insert(d, s))
        },
    }
}

/// A device is classified once: after a `detect` that found its device, a
/// later `detect` for the same device returns the same strategy and leaves
/// the cache as it is, whatever `statfs` would report then.
pub proof fn lemma_detect_caches_device(
    cache: Map<u64, IoStrategy>,
    dev: u64,
    first_f_type: Option<i64>,
    later_f_type: Option<i64>,
)
    ensures
        ({
            let (s1, c1) = spec_detect(cache, Some(dev), first_f_type);
            let (s2, c2) = spec_detect(c1, Some(dev), later_f_type);
            s2 == s1 && c2 == c1 && c1.contains_key(dev) && c1[dev] == s1
        }),
{
}

/// The bytes of a path as `stat(2)` and `statfs(2)` take it: followed by a
/// terminating NUL; `None` when the path holds a NUL byte itself, which no
/// system call can be given (detection then falls back to `LocalSync`).
pub fn c_path_bytes(path: &[u8]) -> (r: Option<Vec<u8>>)
    ensures
        match r {
            None => path@.contains(0u8),
            Some(v) => !path@.contains(0u8) && v@ == path@.push(0u8),
        },
{
    let mut out: Vec<u8> = Vec::new();
    let n = path.len();
    let mut i: usize = 0;
    while i < n
        invariant
            i <= n,
            n == path@.len(),
            out@ == path@.take(i as int),
            !path@.take(i as int).contains(0u8),
        decreases n - i,
    {
        if path[i] == 0 {
            assert(path@[i as int] == 0u8);
            return None;
        }
        out.push(path[i]);
        assert(path@.take(i + 1) =~= path@.take(i as int).push(path@[i as int]));
        assert(out@ =~= path@.take(i + 1));
        i = i + 1;
    }
    assert(path@.take(n as int) =~= path@);
    out.push(0);
    Some(out)
}

/// Per-worker cache of strategies, keyed by device id (`st_dev`).
#[derive(Debug)]
pub struct IoStrategyCache {
    map: HashMap<u64, IoStrategy>,
}

impl View for IoStrategyCache {
    type V = Map<u64, IoStrategy>;

    closed spec fn view(&self) -> Map<u64, IoStrategy> {
        self.map@
    }
}

impl IoStrategyCache {
    /// An empty cache.
    pub fn new() -> (c: Self)
        ensures
            c@ == Map::<u64, IoStrategy>::empty(),
    {
        IoStrategyCache { map: HashMap::new() }
    }

    /// The strategy cached for device `dev`, if any.
    pub fn get(&self, dev: u64) -> (r: Option<IoStrategy>)
        ensures
            r == (if self@.contains_key(dev) {
                Some(self@[dev])
            } else {
                None
            }),
    {
        broadcast use vstd::std_specs::hash::group_hash_axioms;

        match self.map.get(&dev) {
            Some(s) => Some(*s),
            None => None,
        }
    }

    /// Records `strategy` for device `dev`.
    pub fn insert(&mut self, dev: u64, strategy: IoStrategy)
        ensures
            final(self)@ == old(self)@.insert(dev, strategy),
    {
        broadcast use vstd::std_specs::hash::group_hash_axioms;

        self.map.insert(dev, strategy);
    }

    /// The strategy for a path, given what `stat(2)` and `statfs(2)` reported
    /// for it: `dev` is the path's `st_dev` (`None` when `stat` failed) and
    /// `f_type` its `statfs` magic number (`None` when `statfs` failed).
    ///
    /// A failed `stat` gives `LocalSync` and leaves the cache alone. A device
    /// already in the cache gives the cached strategy (`f_type` is then not
    /// consulted, so a caller only needs `statfs` when `get(dev)` is `None`).
    /// Otherwise the strategy of `f_type` (`LocalSync` when it is unknown) is
    /// cached for the device and returned.
    pub fn detect(&mut self, dev: Option<u64>, f_type: Option<i64>) -> (s: IoStrategy)
        ensures
            (s, final(self)@) == spec_detect(old(self)@, dev, f_type),
    {
        match dev {
            Some(d) => {
                if let Some(s) = self.get(d) {
                    return s;
                }
                let strategy = match f_type {
                    Some(t) => strategy_from_ftype(t),
                    None => IoStrategy::LocalSync,
                };
                self.insert(d, strategy);
                strategy
            },
            None => IoStrategy::LocalSync,
        }
    }
}

} // verus!
