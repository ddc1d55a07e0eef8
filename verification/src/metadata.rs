//! Metadata replication after a byte copy: extended attributes first, then
//! permission bits. Attribute failure is non-fatal; permission failure is.
use vstd::prelude::*;

use std::path::PathBuf;

use crate::errors::Error;
use crate::fileio::{chmod_path, stat_mode, xattr_get, xattr_names, xattr_set};

verus! {

/// Copy every extended attribute from `src` to `dest`: enumerate the names
/// on the source, read each value, and set it on the destination. The only
/// error this can surface is `XattrUnsupported`.
pub fn copy_xattr(src: &PathBuf, dest: &PathBuf) -> (r: Result<(), Error>)
    ensures
        r matches Err(e) ==> e matches Error::XattrUnsupported,
{
    let names = xattr_names(src)?;
    let n = names.len();
    for i in 0..n
        invariant
            n == names@.len(),
    {
        let value = xattr_get(src, names[i].as_str())?;
        match value {
            Some(v) => {
                xattr_set(dest, names[i].as_str(), &v)?;
            },
            None => {},
        }
    }
    Ok(())
}

/// Copy extended attributes, then permission bits, from `src` to `dest`.
/// A failure to copy attributes is non-fatal (the target filesystem may not
/// support them) and never decides the result: the only error this can
/// surface is an `Io` failure of the permission read or write.
pub fn copy_permissions(src: &PathBuf, dest: &PathBuf) -> (r: Result<(), Error>)
    ensures
        r matches Err(e) ==> e matches Error::Io(_),
{
    let _attrs = copy_xattr(src, dest);
    let mode = stat_mode(src)?;
    chmod_path(dest, mode)
}

} // verus!
