//! Codec for a fixed-roster binary save file.
//!
//! The file stores exactly twelve personnel records between fixed marker
//! sequences. Each record holds length-prefixed text fields followed by a
//! fixed-width block of six single-byte attributes. This crate locates the
//! records, decodes them into an editable roster, re-encodes an edited
//! roster by patching only the bytes it understands, and plans the
//! backup-then-overwrite sequence used when saving.

pub mod backup;
pub mod bytes;
pub mod decode;
pub mod encode;
pub mod errors;
pub mod laws;
pub mod markers;
pub mod scan;
pub mod soldier;
