//! The error kinds every operation can surface.
//!
//! All errors are detected before any mutation is committed: a failing
//! operation leaves the store exactly as it was.

use vstd::prelude::*;

verus! {

/// Why an operation was rejected.
#[derive(Clone, Copy, Debug, PartialEq, Eq, Structural)]
pub enum SolifyError {
    /// A username or playlist name exceeds its maximum byte length.
    NameTooLong,
    /// A track URI exceeds its maximum byte length.
    UriTooLong,
    /// A track title exceeds its maximum byte length.
    TitleTooLong,
    /// A counter increment would exceed the counter's width.
    Overflow,
    /// The caller is not the recorded authority of the target profile.
    AuthorizationFailed,
    /// The caller is not the recorded owner of the target playlist.
    NotPlaylistOwner,
    /// A supplied record address does not reproduce from the record's own
    /// stored key parts and disambiguator, or no record lives there at all:
    /// a spoofed or stale reference.
    AddressMismatch,
    /// The target address already holds a record.
    DuplicateCreation,
}

} // verus!
