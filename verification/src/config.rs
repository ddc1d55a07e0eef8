//! The read-only configuration bundle shared by every component of a run.
use vstd::prelude::*;

verus! {

/// When to attempt a copy-on-write clone of the whole file.
#[derive(Clone, Copy, Debug, PartialEq, Eq, Structural)]
pub enum Reflink {
    /// Clone or fail: an unsupported filesystem is a fatal error.
    Always,
    /// Clone when supported, otherwise fall through the primitive ladder.
    Auto,
    /// Never attempt a clone.
    Never,
}

/// Which copy driver fans the work out.
#[derive(Clone, Copy, Debug, PartialEq, Eq, Structural)]
pub enum DriverKind {
    /// One unit of work per source file.
    ParFile,
    /// One unit of work per block of every source file.
    ParBlock,
}

/// Settings shared, read-only, by every component for the lifetime of a run.
#[derive(Clone, Copy, Debug)]
pub struct Config {
    pub worker_count: usize,
    pub block_size: u64,
    pub batch_size: u64,
    pub reflink: Reflink,
    pub follow_symlinks: bool,
    pub preserve_xattr: bool,
    pub no_clobber: bool,
    pub recursive: bool,
    pub channel_capacity: usize,
    pub driver: DriverKind,
}

impl Config {
    /// The invariant every run relies on: at least one worker, non-empty
    /// blocks and batches, and room for at least one queued event.
    pub open spec fn valid(self) -> bool {
        &&& self.worker_count >= 1
        &&& self.block_size > 0
        &&& self.batch_size > 0
        &&& self.channel_capacity >= 1
    }

    /// Check the configuration invariant.
    pub fn is_valid(&self) -> (b: bool)
        ensures
            b == self.valid(),
    {
        self.worker_count >= 1 && self.block_size > 0 && self.batch_size > 0
            && self.channel_capacity >= 1
    }
}

/// A status event carried from the workers to the consumer draining the bus:
/// the total grows by `Size` events and progress advances by `Copied` events,
/// whose order across operations is not guaranteed.
#[derive(Clone, Debug)]
pub enum StatusUpdate {
    /// A source file's length was discovered.
    Size(u64),
    /// This many more bytes were copied.
    Copied(u64),
    /// A unit of work failed.
    Failed(crate::errors::Error),
}

} // verus!
