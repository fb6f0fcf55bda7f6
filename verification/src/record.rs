//! The per-entry record that a scan collects for each immediate child of the
//! root directory.

use vstd::prelude::*;

verus! {

/// Metadata for one directory entry: the base name (as the platform's bytes),
/// whether the entry is itself a directory, and its size in bytes.
///
/// The size of a directory is not computed: it is recorded as zero.
pub struct EntryRecord {
    pub name: Vec<u8>,
    pub is_dir: bool,
    pub size_bytes: u64,
}

impl EntryRecord {
    /// A record is well formed when a directory carries no size.
    pub open spec fn wf(self) -> bool {
        self.is_dir ==> self.size_bytes == 0
    }

    /// Builds the record for one entry from its raw metadata; a directory's
    /// byte length is discarded and its size recorded as zero.
    pub fn new(name: Vec<u8>, is_dir: bool, byte_len: u64) -> (r: EntryRecord)
        ensures
            r.name == name,
            r.is_dir == is_dir,
            r.size_bytes == (if is_dir { 0u64 } else { byte_len }),
            r.wf(),
    {
        EntryRecord { name, is_dir, size_bytes: if is_dir { 0 } else { byte_len } }
    }
}

} // verus!
