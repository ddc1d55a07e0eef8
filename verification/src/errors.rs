//! Error taxonomy of the copy engine.
use vstd::prelude::*;

verus! {

/// What went wrong, and at which stage.
#[derive(Debug, Clone)]
pub enum Error {
    /// Pre-flight argument or path errors; fatal before any copy.
    InvalidArguments(&'static str),
    /// Source missing, unreadable, or of an unsupported type.
    InvalidSource(&'static str),
    /// Destination conflicts with policy: non-directory with multiple
    /// sources, exists under `no_clobber`, or is the same file as a source.
    InvalidDestination(&'static str),
    /// The requested driver or primitive is unavailable on this platform.
    UnsupportedOs(&'static str),
    /// A kernel copy primitive is not supported on the filesystem involved;
    /// callers fall through to the next rung of the primitive ladder.
    UnsupportedFilesystem,
    /// A syscall was interrupted by a signal; callers retry transparently
    /// and surface this value only when the interruption persists.
    Interrupted,
    /// An underlying syscall failed; carries the raw OS error number.
    Io(i32),
    /// The source shrank or returned zero bytes prematurely.
    UnexpectedEof,
    /// Extended attributes could not be copied; non-fatal.
    XattrUnsupported,
}

impl Error {
    /// A short human-readable description of the error.
    pub fn message(&self) -> String {
        match self {
            Error::InvalidArguments(m) => m.to_string(),
            Error::InvalidSource(m) => m.to_string(),
            Error::InvalidDestination(m) => m.to_string(),
            Error::UnsupportedOs(m) => m.to_string(),
            Error::UnsupportedFilesystem => "operation not supported on this filesystem".to_string(),
            Error::Interrupted => "interrupted".to_string(),
            Error::Io(_) => "I/O error".to_string(),
            Error::UnexpectedEof => "source file ended prematurely".to_string(),
            Error::XattrUnsupported => "extended attributes unsupported".to_string(),
        }
    }
}

} // verus!
