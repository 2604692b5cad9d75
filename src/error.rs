//! Failures that reach the caller of the library, by kind.

use vstd::prelude::*;

verus! {

/// Kinds of failure surfaced to the caller. Transient read errors never
/// appear here: the capture loop absorbs them.
#[derive(Clone, Copy, Debug, PartialEq, Eq, Structural)]
pub enum SonarError {
    /// The requested interface is neither offered nor "all".
    ConfigurationError,
    /// The capture handle could not be acquired.
    CaptureOpenError,
    /// The shared table could not be locked.
    LockContentionFailure,
    /// The table could not be turned into the requested text.
    SerializationError,
    /// The export file could not be written in full.
    ExportIOError,
}

} // verus!
