//! Verified byte movement: positional range copy, sequential copy, the
//! kernel-primitive ladder, and batched copy with additive progress
//! accounting.
use vstd::prelude::*;

use rustix::fd::OwnedFd;

use crate::errors::Error;
use crate::fileio::{copy_fd_kernel, pread_at, pwrite_at, read_fd, write_fd};

verus! {

/// How many consecutive interrupted syscalls are retried before giving up.
pub const RETRY_LIMIT: u32 = 1024;

/// The sum of a sequence of byte counts.
pub open spec fn sum64(s: Seq<u64>) -> int
    decreases s.len(),
{
    if s.len() == 0 {
        0
    } else {
        sum64(s.drop_last()) + s.last()
    }
}

pub proof fn lemma_sum64_push(s: Seq<u64>, x: u64)
    ensures
        sum64(s.push(x)) == sum64(s) + x,
{
    assert(s.push(x).drop_last() =~= s);
    assert(s.push(x).last() == x);
}

/// A vector of `n` zero bytes.
fn zero_vec(n: usize) -> (v: Vec<u8>)
    ensures
        v@.len() == n,
{
    let mut v: Vec<u8> = Vec::new();
    while v.len() < n
        invariant
            v@.len() <= n,
        decreases n - v@.len(),
    {
        v.push(0);
    }
    v
}

/// Copy a block of bytes at an offset between files, using positional reads
/// and writes. On success exactly `nbytes` bytes were moved; a request for
/// zero bytes succeeds without touching either file. A read of zero bytes
/// before `nbytes` is a fatal `UnexpectedEof`; a write shorter than the
/// preceding read is fatal; interruptions are retried.
pub fn copy_range_uspace(reader: &OwnedFd, writer: &OwnedFd, nbytes: usize, off: usize) -> (r:
    Result<usize, Error>)
    requires
        off + nbytes <= usize::MAX,
    ensures
        r matches Ok(n) ==> n == nbytes,
        nbytes == 0 ==> r is Ok,
{
    let mut buf = zero_vec(nbytes);
    let mut written: usize = 0;
    let mut retries: u32 = RETRY_LIMIT;
    while written < nbytes
        invariant
            written <= nbytes,
            buf@.len() == nbytes,
            off + nbytes <= usize::MAX,
        decreases nbytes - written, retries,
    {
        let next = nbytes - written;
        let noff = (off + written) as u64;
        match pread_at(reader, &mut buf, next, noff) {
            Ok(rlen) => {
                if rlen == 0 {
                    return Err(Error::UnexpectedEof);
                }
                match pwrite_at(writer, &buf, rlen, noff) {
                    Ok(wlen) => {
                        if wlen < rlen {
                            return Err(Error::InvalidSource("failed write to file"));
                        }
                        written = written + rlen;
                        retries = RETRY_LIMIT;
                    },
                    Err(Error::Interrupted) => {
                        if retries == 0 {
                            return Err(Error::Interrupted);
                        }
                        retries = retries - 1;
                    },
                    Err(e) => {
                        return Err(e);
                    },
                }
            },
            Err(Error::Interrupted) => {
                if retries == 0 {
                    return Err(Error::Interrupted);
                }
                retries = retries - 1;
            },
            Err(e) => {
                return Err(e);
            },
        }
    }
    Ok(written)
}

/// Copy exactly `nbytes` bytes between the descriptors' current positions
/// with plain reads and writes, retrying short writes and interruptions; a
/// request for zero bytes succeeds without touching either file. A read of
/// zero bytes before `nbytes` is a fatal `UnexpectedEof`.
pub fn copy_bytes_uspace(reader: &OwnedFd, writer: &OwnedFd, nbytes: usize) -> (r: Result<
    usize,
    Error,
>)
    ensures
        r matches Ok(n) ==> n == nbytes,
        nbytes == 0 ==> r is Ok,
{
    let mut buf = zero_vec(nbytes);
    let mut written: usize = 0;
    let mut retries: u32 = RETRY_LIMIT;
    while written < nbytes
        invariant
            written <= nbytes,
            buf@.len() == nbytes,
        decreases nbytes - written, retries,
    {
        let next = nbytes - written;
        match read_fd(reader, &mut buf, next) {
            Ok(rlen) => {
                if rlen == 0 {
                    return Err(Error::UnexpectedEof);
                }
                let mut wdone: usize = 0;
                let mut wretries: u32 = RETRY_LIMIT;
                while wdone < rlen
                    invariant
                        wdone <= rlen <= buf@.len(),
                        nbytes > 0,
                    decreases rlen - wdone, wretries,
                {
                    match write_fd(writer, &buf, wdone, rlen - wdone) {
                        Ok(wlen) => {
                            if wlen == 0 {
                                return Err(Error::InvalidSource("failed write to file"));
                            }
                            wdone = wdone + wlen;
                            wretries = RETRY_LIMIT;
                        },
                        Err(Error::Interrupted) => {
                            if wretries == 0 {
                                return Err(Error::Interrupted);
                            }
                            wretries = wretries - 1;
                        },
                        Err(e) => {
                            return Err(e);
                        },
                    }
                }
                written = written + rlen;
                retries = RETRY_LIMIT;
            },
            Err(Error::Interrupted) => {
                if retries == 0 {
                    return Err(Error::Interrupted);
                }
                retries = retries - 1;
            },
            Err(e) => {
                return Err(e);
            },
        }
    }
    Ok(written)
}

/// Copy exactly `nbytes` bytes between the descriptors' current positions,
/// preferring the in-kernel range copy and falling back to a user-space copy
/// when the filesystem does not support it. On success exactly `nbytes`
/// bytes were moved; a request for zero bytes succeeds without touching
/// either file.
pub fn copy_file_bytes(infd: &OwnedFd, outfd: &OwnedFd, nbytes: usize) -> (r: Result<usize, Error>)
    ensures
        r matches Ok(n) ==> n == nbytes,
        nbytes == 0 ==> r is Ok,
{
    let mut written: usize = 0;
    let mut retries: u32 = RETRY_LIMIT;
    while written < nbytes
        invariant
            written <= nbytes,
        decreases nbytes - written, retries,
    {
        match copy_fd_kernel(infd, outfd, nbytes - written) {
            Ok(n) => {
                if n == 0 {
                    return Err(Error::UnexpectedEof);
                }
                written = written + n;
                retries = RETRY_LIMIT;
            },
            Err(Error::Interrupted) => {
                if retries == 0 {
                    return Err(Error::Interrupted);
                }
                retries = retries - 1;
            },
            Err(Error::UnsupportedFilesystem) => {
                let rest = copy_bytes_uspace(infd, outfd, nbytes - written)?;
                return Ok(written + rest);
            },
            Err(e) => {
                return Err(e);
            },
        }
    }
    Ok(written)
}

/// The batch sizes for copying `len` bytes in batches of at most `bs`: each
/// batch takes as much as remains, capped at `bs`, so every batch but the
/// last is exactly `bs` and the last is the remainder.
pub open spec fn batches_spec(len: u64, bs: u64) -> Seq<u64>
    decreases len when bs > 0
{
    if len == 0 {
        Seq::empty()
    } else if len <= bs {
        seq![len]
    } else {
        seq![bs] + batches_spec((len - bs) as u64, bs)
    }
}

/// Copy `len` bytes in batches, returning the size of each batch in order.
/// The batches are exactly `batches_spec(len, batch_size)`: every batch but
/// the last is `batch_size`, the last is the remainder, and together they
/// add up to exactly `len` — the progress events emitted for one operation
/// account for every byte of the source, no more and no fewer. A request for
/// zero bytes succeeds without touching either file.
pub fn copy_bytes_batched(infd: &OwnedFd, outfd: &OwnedFd, len: u64, batch_size: u64) -> (r: Result<
    Vec<u64>,
    Error,
>)
    requires
        batch_size > 0,
        len <= usize::MAX,
    ensures
        r matches Ok(events) ==> events@ == batches_spec(len, batch_size) && sum64(events@) == len
            && forall|i: int| 0 <= i < events@.len() ==> 0 < #[trigger] events@[i] <= batch_size,
        len == 0 ==> r is Ok,
{
    let mut events: Vec<u64> = Vec::new();
    let mut written: u64 = 0;
    while written < len
        invariant
            written <= len <= usize::MAX,
            batch_size > 0,
            sum64(events@) == written,
            forall|i: int| 0 <= i < events@.len() ==> 0 < #[trigger] events@[i] <= batch_size,
            batches_spec(len, batch_size) == events@ + batches_spec(
                (len - written) as u64,
                batch_size,
            ),
        decreases len - written,
    {
        let remaining = len - written;
        let bytes_to_copy = if remaining < batch_size {
            remaining
        } else {
            batch_size
        };
        let n = copy_file_bytes(infd, outfd, bytes_to_copy as usize)?;
        proof {
            lemma_sum64_push(events@, bytes_to_copy);
            if remaining <= batch_size {
                assert(batches_spec(remaining, batch_size) =~= seq![remaining]);
                assert(events@ + batches_spec(remaining, batch_size) =~= events@.push(
                    remaining,
                ) + batches_spec(0, batch_size));
            } else {
                assert(events@ + batches_spec(remaining, batch_size) =~= events@.push(
                    batch_size,
                ) + batches_spec((remaining - batch_size) as u64, batch_size));
            }
        }
        events.push(bytes_to_copy);
        written = written + bytes_to_copy;
    }
    proof {
        assert(events@ + batches_spec(0, batch_size) =~= events@);
    }
    Ok(events)
}

} // verus!
