//! Error values surfaced to the collaborator that drives loading and saving.

use vstd::prelude::*;

verus! {

/// Why a load failed. `UnreadableFile` is reported by the caller that
/// performs the file read; the decoder itself reports the other two.
#[derive(Clone, Copy, Debug, PartialEq, Eq, Structural)]
pub enum DecodeError {
    /// The source file could not be opened or read.
    UnreadableFile,
    /// A start marker had no following end marker, or the number of
    /// records found differs from the fixed roster size.
    MalformedMarkers,
    /// A length prefix or a fixed-width field runs past the buffer end.
    TruncatedRecord,
}

/// Why a save failed.
#[derive(Clone, Copy, Debug, PartialEq, Eq, Structural)]
pub enum WriteError {
    /// Every probed backup name is already taken.
    BackupNameExhausted,
    /// Copying the existing target to the backup path failed.
    BackupCopyFailed,
    /// Writing the new contents to the target failed.
    WriteFailed,
}

} // verus!
