//! The per-file copy drivers: extent discovery for sparse sources, the
//! whole-file primitive ladder, and block-wise copying with verified
//! progress accounting.
use vstd::prelude::*;

use core::ops::Range;
use rustix::fd::OwnedFd;
use std::path::PathBuf;

use crate::config::{Config, Reflink};
use crate::errors::Error;
use crate::extents::{bounded, merge_extents, merge_spec, ordered, well_formed};
use crate::fileio::{allocate_file, clone_file, open_create_new, open_create_trunc, open_read,
    seek_data, seek_hole};
use crate::metadata::copy_permissions;
use crate::mover::{copy_bytes_batched, copy_range_uspace, sum64};

verus! {

/// Walk the file's allocated regions with the next-data / next-hole seek
/// capability. Fails with `UnsupportedFilesystem` when the filesystem lacks
/// the capability or reports offsets that cannot be trusted.
fn probe_extents(fd: &OwnedFd, len: u64) -> (r: Result<Vec<Range<u64>>, Error>)
    ensures
        r matches Ok(v) ==> well_formed(v@) && ordered(v@) && bounded(v@, len),
        len == 0 ==> r is Ok,
{
    let mut extents: Vec<Range<u64>> = Vec::new();
    let mut pos: u64 = 0;
    while pos < len
        invariant
            well_formed(extents@),
            ordered(extents@),
            bounded(extents@, len),
            extents@.len() > 0 ==> extents@.last().end <= pos,
        decreases len - pos,
    {
        let data = match seek_data(fd, pos)? {
            Some(d) => d,
            None => {
                return Ok(extents);
            },
        };
        if data >= len {
            return Ok(extents);
        }
        let hole = seek_hole(fd, data)?;
        if hole <= data {
            return Err(Error::UnsupportedFilesystem);
        }
        let end = if hole > len {
            len
        } else {
            hole
        };
        extents.push(Range { start: data, end });
        pos = end;
    }
    Ok(extents)
}

/// The allocated extents of the first `len` bytes of the file: sorted,
/// non-overlapping, coalesced, and inside `[0, len)`. When the filesystem
/// offers no extent probing, the single full range `[0, len)` is returned, so
/// the union of the result always covers every allocated byte.
pub fn extents_of(fd: &OwnedFd, len: u64) -> (r: Result<Vec<Range<u64>>, Error>)
    ensures
        r matches Ok(v) ==> well_formed(v@) && ordered(v@) && crate::extents::coalesced(v@)
            && bounded(v@, len),
        len == 0 ==> r is Ok,
{
    let probed = match probe_extents(fd, len) {
        Ok(v) => v,
        Err(Error::UnsupportedFilesystem) => {
            let mut whole: Vec<Range<u64>> = Vec::new();
            if len > 0 {
                whole.push(Range { start: 0, end: len });
            }
            return Ok(whole);
        },
        Err(e) => {
            return Err(e);
        },
    };
    let ghost probed_view = probed@;
    let merged = merge_extents(probed)?;
    proof {
        crate::extents::lemma_merge_ordered(probed_view);
        lemma_merge_bounded(probed_view, len);
        assert(merged@ == merge_spec(probed_view));
    }
    Ok(merged)
}

/// Merging keeps every extent inside the file: the merged ranges end no
/// later than the latest input range.
proof fn lemma_merge_bounded(s: Seq<Range<u64>>, len: u64)
    requires
        bounded(s, len),
    ensures
        bounded(merge_spec(s), len),
    decreases s.len(),
{
    if s.len() > 0 {
        assert(bounded(s.drop_last(), len));
        lemma_merge_bounded(s.drop_last(), len);
        let acc = merge_spec(s.drop_last());
        let e = s.last();
        let m = crate::extents::merge_step(acc, e);
        assert(e.end <= len);
        assert forall|i: int| 0 <= i < m.len() implies (#[trigger] m[i]).end <= len by {
            if acc.len() > 0 && e.start == acc.last().end + 1 {
                if i < m.len() - 1 {
                    assert(m[i] == acc[i]);
                }
            } else if acc.len() > 0 {
                if i < m.len() - 1 {
                    assert(m[i] == acc[i]);
                }
            }
        }
    }
}

/// Copy one file of length `len` whole: open both ends, try a copy-on-write
/// clone when the policy allows it, otherwise pre-allocate and move the bytes
/// in batches. Returns the progress events of the copy; on success they
/// account for exactly `len` bytes. With `reflink` set to `Always` an
/// unsupported filesystem is a fatal error; with `Auto` the ladder falls
/// through to the batched copy.
pub fn copy_single_file(src: &PathBuf, dest: &PathBuf, len: u64, config: &Config) -> (r: Result<
    Vec<u64>,
    Error,
>)
    requires
        config.valid(),
        len <= usize::MAX,
    ensures
        r matches Ok(events) ==> sum64(events@) == len,
{
    let infd = open_read(src)?;
    let outfd = if config.no_clobber {
        open_create_new(dest)?
    } else {
        open_create_trunc(dest)?
    };
    let mut cloned = false;
    if config.reflink == Reflink::Always || config.reflink == Reflink::Auto {
        match clone_file(&infd, &outfd) {
            Ok(()) => {
                cloned = true;
            },
            Err(Error::UnsupportedFilesystem) => {
                if config.reflink == Reflink::Always {
                    return Err(Error::UnsupportedFilesystem);
                }
            },
            Err(e) => {
                return Err(e);
            },
        }
    }
    let events: Vec<u64> = if cloned {
        let mut ev: Vec<u64> = Vec::new();
        proof {
            assert(ev@.len() == 0);
            assert(sum64(ev@) == 0);
        }
        if len > 0 {
            let ghost before = ev@;
            ev.push(len);
            proof {
                crate::mover::lemma_sum64_push(before, len);
                assert(ev@ == before.push(len));
                assert(sum64(ev@) == len);
            }
        }
        ev
    } else {
        allocate_file(&outfd, len)?;
        copy_bytes_batched(&infd, &outfd, len, config.batch_size)?
    };
    copy_permissions(src, dest)?;
    Ok(events)
}

/// Copy the given non-overlapping blocks between two open files with
/// positional I/O. Returns one progress event per block; on success event `i`
/// is exactly the length of block `i`, so the events add up to the bytes the
/// blocks cover.
pub fn copy_blocks(infd: &OwnedFd, outfd: &OwnedFd, blocks: &Vec<Range<u64>>) -> (r: Result<
    Vec<u64>,
    Error,
>)
    requires
        well_formed(blocks@),
        bounded(blocks@, usize::MAX as u64),
    ensures
        r matches Ok(events) ==> events@.len() == blocks@.len() && forall|i: int|
            0 <= i < events@.len() ==> #[trigger] events@[i] == blocks@[i].end - blocks@[i].start,
        blocks@.len() == 0 ==> r is Ok,
{
    let mut events: Vec<u64> = Vec::new();
    let n = blocks.len();
    for i in 0..n
        invariant
            n == blocks@.len(),
            well_formed(blocks@),
            bounded(blocks@, usize::MAX as u64),
            events@.len() == i,
            forall|j: int| 0 <= j < i ==> #[trigger] events@[j] == blocks@[j].end
                - blocks@[j].start,
    {
        let start = blocks[i].start;
        let end = blocks[i].end;
        let nbytes = (end - start) as usize;
        copy_range_uspace(infd, outfd, nbytes, start as usize)?;
        events.push(end - start);
    }
    Ok(events)
}

/// Copy one sparse file of length `len` block-wise: pre-allocate the
/// destination to the full length so holes stay holes, discover the allocated
/// extents, split them into blocks of at most `config.block_size` bytes, and
/// copy each block at its own offset. Returns the blocks that were copied and
/// one progress event per block; on success event `i` accounts for exactly
/// the bytes of block `i`, and the blocks are sorted, non-overlapping and lie
/// inside `[0, len)`.
pub fn copy_file_blocks(src: &PathBuf, dest: &PathBuf, len: u64, config: &Config) -> (r: Result<
    (Vec<Range<u64>>, Vec<u64>),
    Error,
>)
    requires
        config.valid(),
        len <= usize::MAX,
    ensures
        r matches Ok((blocks, events)) ==> events@.len() == blocks@.len() && well_formed(blocks@)
            && ordered(blocks@) && bounded(blocks@, len) && forall|i: int|
            0 <= i < events@.len() ==> #[trigger] events@[i] == blocks@[i].end - blocks@[i].start,
{
    let infd = open_read(src)?;
    let outfd = if config.no_clobber {
        open_create_new(dest)?
    } else {
        open_create_trunc(dest)?
    };
    allocate_file(&outfd, len)?;
    let extents = extents_of(&infd, len)?;
    let blocks = crate::extents::plan_blocks(&extents, config.block_size);
    proof {
        lemma_plan_blocks_bounded(extents@, config.block_size, len);
        crate::extents::lemma_plan_ordered(extents@, config.block_size);
    }
    let events = copy_blocks(&infd, &outfd, &blocks)?;
    copy_permissions(src, dest)?;
    Ok((blocks, events))
}

/// Splitting bounded, well-formed extents yields bounded, well-formed blocks.
proof fn lemma_split_bounded(start: u64, end: u64, bs: u64, len: u64)
    requires
        bs > 0,
        start <= end <= len,
    ensures
        well_formed(crate::extents::split_spec(start, end, bs)),
        bounded(crate::extents::split_spec(start, end, bs), len),
    decreases end - start,
{
    if start < end {
        if end - start <= bs {
        } else {
            lemma_split_bounded((start + bs) as u64, end, bs, len);
            let first = Range { start, end: (start + bs) as u64 };
            let rest = crate::extents::split_spec((start + bs) as u64, end, bs);
            let whole = seq![first] + rest;
            assert forall|i: int| 0 <= i < whole.len() implies (#[trigger] whole[i]).start
                <= whole[i].end && whole[i].end <= len by {
                if i > 0 {
                    assert(whole[i] == rest[i - 1]);
                }
            }
        }
    }
}

proof fn lemma_plan_blocks_bounded(s: Seq<Range<u64>>, bs: u64, len: u64)
    requires
        bs > 0,
        well_formed(s),
        bounded(s, len),
    ensures
        well_formed(crate::extents::plan_spec(s, bs)),
        bounded(crate::extents::plan_spec(s, bs), len),
    decreases s.len(),
{
    if s.len() > 0 {
        assert(well_formed(s.drop_last()));
        assert(bounded(s.drop_last(), len));
        lemma_plan_blocks_bounded(s.drop_last(), bs, len);
        lemma_split_bounded(s.last().start, s.last().end, bs, len);
        let left = crate::extents::plan_spec(s.drop_last(), bs);
        let right = crate::extents::split_spec(s.last().start, s.last().end, bs);
        let whole = left + right;
        assert forall|i: int| 0 <= i < whole.len() implies (#[trigger] whole[i]).start <= whole[
            i
        ].end && whole[i].end <= len by {
            if i < left.len() {
                assert(whole[i] == left[i]);
            } else {
                assert(whole[i] == right[i - left.len()]);
            }
        }
    }
}

} // verus!
