//! Identity of files by device and inode number, used by the pre-flight
//! check that refuses to copy a file onto itself.
use vstd::prelude::*;

use std::path::PathBuf;

use crate::errors::Error;
use crate::fileio::stat_ids;

verus! {

/// The identity of a file on disk: its device and inode numbers. Two paths
/// name the same file exactly when both numbers agree.
#[derive(Clone, Copy, Debug, PartialEq, Eq, Structural)]
pub struct FileIds {
    pub dev: u64,
    pub ino: u64,
}

/// Two file identities name the same file: same inode on the same device.
pub open spec fn same_ids(a: FileIds, b: FileIds) -> bool {
    a.dev == b.dev && a.ino == b.ino
}

/// Compare two file identities.
pub fn ids_equal(a: &FileIds, b: &FileIds) -> (r: bool)
    ensures
        r == same_ids(*a, *b),
{
    a.dev == b.dev && a.ino == b.ino
}

/// A file identity names the same file as itself, so a same-file comparison
/// of one path against itself is true whenever the path exists.
pub proof fn lemma_same_ids_reflexive(a: FileIds)
    ensures
        same_ids(a, a),
{
}

/// Two files with different inode numbers, or on different devices, are
/// never the same file.
pub proof fn lemma_distinct_ids_not_same(a: FileIds, b: FileIds)
    requires
        a.ino != b.ino || a.dev != b.dev,
    ensures
        !same_ids(a, b),
{
}

/// Whether the two paths resolve to the same inode on the same device. The
/// identities come from the filesystem at call time, so the result is exactly
/// `same_ids` of whatever the two lookups returned; when either lookup fails
/// (the path missing or unreadable), the underlying `Io` error is returned.
pub fn is_same_file(src: &PathBuf, dest: &PathBuf) -> (r: Result<bool, Error>)
    ensures
        r matches Err(e) ==> e matches Error::Io(_),
{
    let sids = stat_ids(src)?;
    let dids = stat_ids(dest)?;
    Ok(ids_equal(&sids, &dids))
}

} // verus!
