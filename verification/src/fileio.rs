//! Trusted boundary to the operating system: opening files, positional I/O,
//! kernel copy primitives, metadata, and extended attributes, through the
//! `rustix` and `xattr` crates. Every function here is believed, not proved;
//! each doc comment names the outside function it relies on.
use vstd::prelude::*;

use rustix::fd::OwnedFd;
use std::path::PathBuf;

use crate::errors::Error;
use crate::samefile::FileIds;

verus! {

#[verifier::external_type_specification]
#[verifier::external_body]
pub struct ExOwnedFd(OwnedFd);

#[verifier::external_type_specification]
#[verifier::external_body]
pub struct ExPathBuf(PathBuf);

/// Relies on rustix::fs::open with `O_RDONLY`: opens an existing file for
/// reading.
#[verifier::external_body]
pub(crate) fn open_read(path: &PathBuf) -> (r: Result<OwnedFd, Error>) {
    rustix::fs::open(path, rustix::fs::OFlags::RDONLY, rustix::fs::Mode::empty())
        .map_err(|e| Error::Io(e.raw_os_error()))
}

/// Relies on rustix::fs::open with `O_WRONLY | O_CREAT | O_TRUNC`: opens the
/// file for writing, creating or truncating it.
#[verifier::external_body]
pub(crate) fn open_create_trunc(path: &PathBuf) -> (r: Result<OwnedFd, Error>) {
    rustix::fs::open(
        path,
        rustix::fs::OFlags::WRONLY | rustix::fs::OFlags::CREATE | rustix::fs::OFlags::TRUNC,
        rustix::fs::Mode::from_raw_mode(0o644),
    ).map_err(|e| Error::Io(e.raw_os_error()))
}

/// Relies on rustix::fs::open with `O_WRONLY | O_CREAT | O_EXCL`: creates the
/// file for writing, failing with `EEXIST` when it already exists.
#[verifier::external_body]
pub(crate) fn open_create_new(path: &PathBuf) -> (r: Result<OwnedFd, Error>) {
    rustix::fs::open(
        path,
        rustix::fs::OFlags::WRONLY | rustix::fs::OFlags::CREATE | rustix::fs::OFlags::EXCL,
        rustix::fs::Mode::from_raw_mode(0o644),
    ).map_err(|e| if e == rustix::io::Errno::EXIST {
        Error::InvalidDestination("destination file exists")
    } else {
        Error::Io(e.raw_os_error())
    })
}

/// Relies on rustix::io::pread: reads at most `len` bytes at offset `off`
/// into the front of `buf` and returns how many bytes were read; 0 means
/// end of file. `EINTR` comes back as `Error::Interrupted`.
#[verifier::external_body]
pub(crate) fn pread_at(fd: &OwnedFd, buf: &mut Vec<u8>, len: usize, off: u64) -> (r: Result<usize, Error>)
    requires
        len <= old(buf)@.len(),
    ensures
        final(buf)@.len() == old(buf)@.len(),
        r matches Ok(n) ==> n <= len,
{
    rustix::io::pread(fd, &mut buf[..len], off).map_err(|e| if e == rustix::io::Errno::INTR {
        Error::Interrupted
    } else {
        Error::Io(e.raw_os_error())
    })
}

/// Relies on rustix::io::pwrite: writes the first `len` bytes of `buf` at
/// offset `off` and returns how many bytes were written, at most `len`.
/// `EINTR` comes back as `Error::Interrupted`.
#[verifier::external_body]
pub(crate) fn pwrite_at(fd: &OwnedFd, buf: &Vec<u8>, len: usize, off: u64) -> (r: Result<usize, Error>)
    requires
        len <= buf@.len(),
    ensures
        r matches Ok(n) ==> n <= len,
{
    rustix::io::pwrite(fd, &buf[..len], off).map_err(|e| if e == rustix::io::Errno::INTR {
        Error::Interrupted
    } else {
        Error::Io(e.raw_os_error())
    })
}

/// Relies on rustix::io::read: reads at most `len` bytes at the descriptor's
/// current position into the front of `buf`; 0 means end of file. `EINTR`
/// comes back as `Error::Interrupted`.
#[verifier::external_body]
pub(crate) fn read_fd(fd: &OwnedFd, buf: &mut Vec<u8>, len: usize) -> (r: Result<usize, Error>)
    requires
        len <= old(buf)@.len(),
    ensures
        final(buf)@.len() == old(buf)@.len(),
        r matches Ok(n) ==> n <= len,
{
    rustix::io::read(fd, &mut buf[..len]).map_err(|e| if e == rustix::io::Errno::INTR {
        Error::Interrupted
    } else {
        Error::Io(e.raw_os_error())
    })
}

/// Relies on rustix::io::write: writes `buf[from..from + len]` at the
/// descriptor's current position and returns how many bytes were written,
/// at most `len`. `EINTR` comes back as `Error::Interrupted`.
#[verifier::external_body]
pub(crate) fn write_fd(fd: &OwnedFd, buf: &Vec<u8>, from: usize, len: usize) -> (r: Result<usize, Error>)
    requires
        from + len <= buf@.len(),
    ensures
        r matches Ok(n) ==> n <= len,
{
    rustix::io::write(fd, &buf[from..from + len]).map_err(|e| if e == rustix::io::Errno::INTR {
        Error::Interrupted
    } else {
        Error::Io(e.raw_os_error())
    })
}

/// Relies on rustix::fs::copy_file_range with no explicit offsets: copies at
/// most `len` bytes between the descriptors' current positions, in kernel
/// space, returning how many were copied; 0 means end of file on the source.
/// `ENOSYS`, `EXDEV` and `EOPNOTSUPP` come back as
/// `Error::UnsupportedFilesystem`, `EINTR` as `Error::Interrupted`.
#[verifier::external_body]
pub(crate) fn copy_fd_kernel(infd: &OwnedFd, outfd: &OwnedFd, len: usize) -> (r: Result<usize, Error>)
    ensures
        r matches Ok(n) ==> n <= len,
{
    rustix::fs::copy_file_range(infd, None, outfd, None, len).map_err(|e| {
        if e == rustix::io::Errno::NOSYS || e == rustix::io::Errno::XDEV
            || e == rustix::io::Errno::OPNOTSUPP {
            Error::UnsupportedFilesystem
        } else if e == rustix::io::Errno::INTR {
            Error::Interrupted
        } else {
            Error::Io(e.raw_os_error())
        }
    })
}

/// Relies on rustix::fs::ioctl_ficlone: makes `outfd` a copy-on-write clone
/// of `infd`, whole file at once. `ENOSYS`, `EXDEV`, `EOPNOTSUPP`, `EINVAL`
/// and `ENOTTY` come back as `Error::UnsupportedFilesystem`.
#[verifier::external_body]
pub(crate) fn clone_file(infd: &OwnedFd, outfd: &OwnedFd) -> (r: Result<(), Error>) {
    rustix::fs::ioctl_ficlone(outfd, infd).map_err(|e| {
        if e == rustix::io::Errno::NOSYS || e == rustix::io::Errno::XDEV
            || e == rustix::io::Errno::OPNOTSUPP || e == rustix::io::Errno::INVAL
            || e == rustix::io::Errno::NOTTY {
            Error::UnsupportedFilesystem
        } else {
            Error::Io(e.raw_os_error())
        }
    })
}

/// Allocate file space on disk. Relies on rustix::fs::ftruncate: sets the
/// file's length to `len`, extending it with a hole.
#[verifier::external_body]
pub fn allocate_file(fd: &OwnedFd, len: u64) -> (r: Result<(), Error>) {
    rustix::fs::ftruncate(fd, len).map_err(|e| Error::Io(e.raw_os_error()))
}

/// Relies on rustix::fs::stat: returns the device and inode numbers that the
/// path resolves to. Any failure comes back as `Error::Io` with the raw OS
/// error number.
#[verifier::external_body]
pub(crate) fn stat_ids(path: &PathBuf) -> (r: Result<FileIds, Error>)
    ensures
        r matches Err(e) ==> e matches Error::Io(_),
{
    rustix::fs::stat(path)
        .map(|s| FileIds { dev: s.st_dev as u64, ino: s.st_ino as u64 })
        .map_err(|e| Error::Io(e.raw_os_error()))
}

/// Relies on rustix::fs::stat: returns the permission and file-type bits of
/// the `st_mode` field. Any failure comes back as `Error::Io`.
#[verifier::external_body]
pub(crate) fn stat_mode(path: &PathBuf) -> (r: Result<u32, Error>)
    ensures
        r matches Err(e) ==> e matches Error::Io(_),
{
    rustix::fs::stat(path)
        .map(|s| s.st_mode as u32)
        .map_err(|e| Error::Io(e.raw_os_error()))
}

/// Relies on rustix::fs::chmod: sets the path's permission bits to the
/// permission part of `mode`. Any failure comes back as `Error::Io`.
#[verifier::external_body]
pub(crate) fn chmod_path(path: &PathBuf, mode: u32) -> (r: Result<(), Error>)
    ensures
        r matches Err(e) ==> e matches Error::Io(_),
{
    rustix::fs::chmod(path, rustix::fs::Mode::from_raw_mode(mode))
        .map_err(|e| Error::Io(e.raw_os_error()))
}

/// Relies on rustix::fs::seek with `SEEK_DATA`: the smallest offset at or
/// after `off` whose byte is data, or `None` (`ENXIO`) when only holes or end
/// of file remain. `EINVAL`, `ENOSYS` and `EOPNOTSUPP` come back as
/// `Error::UnsupportedFilesystem`.
#[verifier::external_body]
pub(crate) fn seek_data(fd: &OwnedFd, off: u64) -> (r: Result<Option<u64>, Error>)
    ensures
        r matches Ok(Some(n)) ==> n >= off,
{
    match rustix::fs::seek(fd, rustix::fs::SeekFrom::Data(off)) {
        Ok(n) => Ok(Some(n)),
        Err(e) if e == rustix::io::Errno::NXIO => Ok(None),
        Err(e) if e == rustix::io::Errno::INVAL || e == rustix::io::Errno::NOSYS
            || e == rustix::io::Errno::OPNOTSUPP => Err(Error::UnsupportedFilesystem),
        Err(e) => Err(Error::Io(e.raw_os_error())),
    }
}

/// Relies on rustix::fs::seek with `SEEK_HOLE`: the smallest offset at or
/// after `off` that lies in a hole; there is an implicit hole at the end of
/// the file. `EINVAL`, `ENOSYS` and `EOPNOTSUPP` come back as
/// `Error::UnsupportedFilesystem`.
#[verifier::external_body]
pub(crate) fn seek_hole(fd: &OwnedFd, off: u64) -> (r: Result<u64, Error>)
    ensures
        r matches Ok(n) ==> n >= off,
{
    match rustix::fs::seek(fd, rustix::fs::SeekFrom::Hole(off)) {
        Ok(n) => Ok(n),
        Err(e) if e == rustix::io::Errno::INVAL || e == rustix::io::Errno::NOSYS
            || e == rustix::io::Errno::OPNOTSUPP => Err(Error::UnsupportedFilesystem),
        Err(e) => Err(Error::Io(e.raw_os_error())),
    }
}

/// Relies on xattr::list: returns the names of the path's extended
/// attributes, each rendered as a UTF-8 string. Any failure comes back as
/// `Error::XattrUnsupported`.
#[verifier::external_body]
pub(crate) fn xattr_names(path: &PathBuf) -> (r: Result<Vec<String>, Error>)
    ensures
        r matches Err(e) ==> e matches Error::XattrUnsupported,
{
    xattr::list(path)
        .map(|names| names.map(|n| n.to_string_lossy().into_owned()).collect())
        .map_err(|_| Error::XattrUnsupported)
}

/// Relies on xattr::get: returns the value of the named extended attribute,
/// or `None` when the path does not carry it. Any failure comes back as
/// `Error::XattrUnsupported`.
#[verifier::external_body]
pub(crate) fn xattr_get(path: &PathBuf, name: &str) -> (r: Result<Option<Vec<u8>>, Error>)
    ensures
        r matches Err(e) ==> e matches Error::XattrUnsupported,
{
    xattr::get(path, name).map_err(|_| Error::XattrUnsupported)
}

/// Relies on xattr::set: sets the named extended attribute on the path. Any
/// failure comes back as `Error::XattrUnsupported`.
#[verifier::external_body]
pub(crate) fn xattr_set(path: &PathBuf, name: &str, value: &Vec<u8>) -> (r: Result<(), Error>)
    ensures
        r matches Err(e) ==> e matches Error::XattrUnsupported,
{
    xattr::set(path, name, value.as_slice()).map_err(|_| Error::XattrUnsupported)
}

} // verus!
