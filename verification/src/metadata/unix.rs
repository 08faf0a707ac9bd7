//! POSIX `stat` fields and device/inode identities.

use std::path::PathBuf;
use std::sync::Arc;
use vstd::prelude::*;

verus! {

#[verifier::external_type_specification]
#[verifier::external_body]
pub struct ExPathBuf(PathBuf);

/// Identity of an ancestor directory, computed once when it is entered, so
/// that checking a followed symbolic link for a loop is a comparison against
/// each ancestor instead of a `stat` per ancestor.
#[derive(Debug, Clone)]
pub struct AncestorIdentity {
    /// The ancestor's path (for error messages).
    pub path: Arc<PathBuf>,
    /// Device id (`st_dev`).
    pub dev: u64,
    /// Inode number (`st_ino`).
    pub ino: u64,
}

/// The POSIX `stat` fields of an entry.
#[derive(Debug, Clone)]
pub struct MetaDataExt {
    /// File mode (permissions and file-type bits), `st_mode`.
    pub st_mode: u32,
    /// Inode number, `st_ino`.
    pub st_ino: u64,
    /// Device id, `st_dev`.
    pub st_dev: u64,
    /// Number of hard links, `st_nlink`.
    pub st_nlink: u64,
    /// Block size for file-system I/O, `st_blksize`.
    pub st_blksize: u64,
    /// Number of 512-byte blocks allocated, `st_blocks`.
    pub st_blocks: u64,
    /// User id of the owner, `st_uid`.
    pub st_uid: u32,
    /// Group id of the owner, `st_gid`.
    pub st_gid: u32,
    /// Device id of a special file, `st_rdev`.
    pub st_rdev: u64,
}

/// The position of the first ancestor that is the file `(dev, ino)`: a
/// symbolic link that leads there would loop.
pub fn find_ancestor_loop(ancestors: &Vec<AncestorIdentity>, dev: u64, ino: u64) -> (r: Option<
    usize,
>)
    ensures
        match r {
            Some(i) => i < ancestors@.len() && ancestors@[i as int].dev == dev && ancestors@[i as int].ino
                == ino && forall|j: int|
                0 <= j < i ==> !(#[trigger] ancestors@[j].dev == dev && ancestors@[j].ino == ino),
            None => forall|j: int|
                0 <= j < ancestors@.len() ==> !(#[trigger] ancestors@[j].dev == dev
                    && ancestors@[j].ino == ino),
        },
{
    let mut i: usize = 0;
    while i < ancestors.len()
        invariant
            i <= ancestors@.len(),
            forall|j: int|
                0 <= j < i ==> !(#[trigger] ancestors@[j].dev == dev && ancestors@[j].ino == ino),
        decreases ancestors@.len() - i,
    {
        if ancestors[i].dev == dev && ancestors[i].ino == ino {
            return Some(i);
        }
        i = i + 1;
    }
    None
}

} // verus!
