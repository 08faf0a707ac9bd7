//! Windows `BY_HANDLE_FILE_INFORMATION` fields and volume/file-index
//! identities.

use std::path::PathBuf;
use std::sync::Arc;
use vstd::prelude::*;

verus! {

/// Identity of an ancestor directory, computed once when it is entered.
#[derive(Debug, Clone)]
pub struct AncestorIdentity {
    /// The ancestor's path (for error messages).
    pub path: Arc<PathBuf>,
    /// Volume serial number.
    pub volume_serial_number: Option<u32>,
    /// File index (the NTFS/ReFS counterpart of an inode number).
    pub file_index: Option<u64>,
}

/// The Windows file information of an entry.
#[derive(Debug, Clone)]
pub struct MetaDataExt {
    /// File attributes (`FILE_ATTRIBUTE_DIRECTORY` is `0x10`).
    pub file_attributes: u32,
    /// Volume serial number, when known.
    pub volume_serial_number: Option<u32>,
    /// Number of links to the file, when known.
    pub number_of_links: Option<u32>,
    /// File index, when known.
    pub file_index: Option<u64>,
}

} // verus!
