//! A deterministic-addressing record store for a small music catalog:
//! user profiles, tracks, playlists, playlist membership entries, and
//! per-track like markers.
//!
//! Every record lives at an address derived from a namespace tag and the
//! record's own key parts; every mutation is checked against the record's
//! recorded owner; and every counter that mints new addresses is strictly
//! monotonic and overflow-checked, so no two live records ever collide.

pub mod errors;
pub mod integrity;
pub mod laws;
pub mod ops;
pub mod pda;
pub mod records;
pub mod store;

use vstd::prelude::*;

verus! {

/// Maximum byte length of a profile's username.
pub const MAX_USERNAME_LEN: usize = 32;

/// Maximum byte length of a track's URI.
pub const MAX_URI_LEN: usize = 200;

/// Maximum byte length of a track's title.
pub const MAX_TITLE_LEN: usize = 64;

/// Maximum byte length of a playlist's name.
pub const MAX_PLAYLIST_NAME_LEN: usize = 32;

} // verus!
