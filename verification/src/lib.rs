//! The verified core of an accelerated file-copy utility for POSIX systems:
//! pre-flight validation of sources and destination, sparse-file extent
//! discovery and merging, block decomposition for concurrent copying, the
//! kernel-primitive ladder (clone, in-kernel range copy, positional
//! user-space copy), metadata replication, and batched byte movement with
//! additive progress accounting.
//!
//! Every syscall crosses the trusted boundary in `fileio`; everything around
//! it — loops, arithmetic, decisions, and the laws in `extents`, `preflight`
//! and `samefile` — is proved.
pub mod config;
pub mod driver;
pub mod errors;
pub mod extents;
mod fileio;
pub mod metadata;
pub mod mover;
pub mod preflight;
pub mod samefile;

pub use config::{Config, DriverKind, Reflink, StatusUpdate};
pub use driver::{copy_blocks, copy_file_blocks, copy_single_file, extents_of};
pub use errors::Error;
pub use extents::{merge_extents, plan_blocks};
pub use fileio::allocate_file;
pub use metadata::{copy_permissions, copy_xattr};
pub use mover::{copy_bytes_batched, copy_bytes_uspace, copy_file_bytes, copy_range_uspace};
pub use preflight::{preflight, preflight_check, refusal_error, PathFacts, Refusal};
pub use samefile::{is_same_file, FileIds};
