//! The five record schemas and their mathematical views.
//!
//! A record's identity fields (owner, index, name, ...) are fixed at
//! creation; only the designated counter fields ever change afterwards.

use vstd::prelude::*;
use crate::MAX_USERNAME_LEN;
use crate::MAX_URI_LEN;
use crate::MAX_TITLE_LEN;
use crate::MAX_PLAYLIST_NAME_LEN;

verus! {

/// A 32-byte caller identity or storage address, as raw bytes.
pub type KeyBytes = [u8; 32];

/// A profile record: one per authority identity.
pub struct UserProfile {
    /// The identity that owns this profile and all tracks under it.
    pub authority: KeyBytes,
    /// Display name, at most `MAX_USERNAME_LEN` bytes.
    pub username: Vec<u8>,
    /// The persisted address disambiguator discovered at creation.
    pub bump: u8,
    /// Number of tracks created under this profile; also the next track index.
    pub track_count: u64,
}

/// A track record, owned by the authority of the profile it was added under.
pub struct Track {
    pub owner: KeyBytes,
    /// Content locator, at most `MAX_URI_LEN` bytes.
    pub uri: Vec<u8>,
    /// Display title, at most `MAX_TITLE_LEN` bytes.
    pub title: Vec<u8>,
    /// Number of likes received; only ever increases.
    pub like_count: u64,
    /// Position in the owner's catalog, assigned once at creation.
    pub index: u64,
    /// The persisted address disambiguator discovered at creation.
    pub bump: u8,
}

/// A playlist record: one per (owner, name) pair.
pub struct Playlist {
    pub owner: KeyBytes,
    /// Playlist name, at most `MAX_PLAYLIST_NAME_LEN` bytes.
    pub name: Vec<u8>,
    /// Number of entries added; also the next entry index.
    pub track_count: u64,
    /// The persisted address disambiguator discovered at creation.
    pub bump: u8,
}

/// A playlist membership entry. It snapshots the referenced track's
/// (owner, index) at creation time; later track mutations never propagate.
pub struct PlaylistItem {
    /// Address of the playlist this entry belongs to.
    pub playlist: KeyBytes,
    /// Position in the playlist, assigned once at creation.
    pub idx: u64,
    pub track_owner: KeyBytes,
    pub track_index: u64,
    /// The persisted address disambiguator discovered at creation.
    pub bump: u8,
}

/// A like marker: at most one per (track, liker) pair, enforced by its
/// address alone.
pub struct Like {
    /// The persisted address disambiguator discovered at creation.
    pub bump: u8,
}

impl UserProfile {
    /// Maximum serialized byte size: schema header, authority, prefixed
    /// username at its cap, bump, counter.
    pub const SPACE: usize = 8 + 32 + 4 + MAX_USERNAME_LEN + 1 + 8;
}

impl Track {
    /// Maximum serialized byte size: schema header, owner, prefixed URI
    /// and title at their caps, counters, bump.
    pub const SPACE: usize = 8 + 32 + 4 + MAX_URI_LEN + 4 + MAX_TITLE_LEN + 8 + 8 + 1;
}

impl Playlist {
    /// Maximum serialized byte size: schema header, owner, prefixed name
    /// at its cap, counter, bump.
    pub const SPACE: usize = 8 + 32 + 4 + MAX_PLAYLIST_NAME_LEN + 8 + 1;
}

impl PlaylistItem {
    /// Maximum serialized byte size: schema header, playlist address,
    /// position, snapshot of the track's owner and index, bump.
    pub const SPACE: usize = 8 + 32 + 8 + 32 + 8 + 1;
}

impl Like {
    /// Maximum serialized byte size: schema header and bump.
    pub const SPACE: usize = 8 + 1;
}

/// Mathematical view of a [`UserProfile`].
pub ghost struct UserProfileV {
    pub authority: Seq<u8>,
    pub username: Seq<u8>,
    pub bump: u8,
    pub track_count: u64,
}

/// Mathematical view of a [`Track`].
pub ghost struct TrackV {
    pub owner: Seq<u8>,
    pub uri: Seq<u8>,
    pub title: Seq<u8>,
    pub like_count: u64,
    pub index: u64,
    pub bump: u8,
}

/// Mathematical view of a [`Playlist`].
pub ghost struct PlaylistV {
    pub owner: Seq<u8>,
    pub name: Seq<u8>,
    pub track_count: u64,
    pub bump: u8,
}

/// Mathematical view of a [`PlaylistItem`].
pub ghost struct PlaylistItemV {
    pub playlist: Seq<u8>,
    pub idx: u64,
    pub track_owner: Seq<u8>,
    pub track_index: u64,
    pub bump: u8,
}

/// Mathematical view of a [`Like`].
pub ghost struct LikeV {
    pub bump: u8,
}

impl View for UserProfile {
    type V = UserProfileV;

    open spec fn view(&self) -> UserProfileV {
        UserProfileV {
            authority: self.authority@,
            username: self.username@,
            bump: self.bump,
            track_count: self.track_count,
        }
    }
}

impl View for Track {
    type V = TrackV;

    open spec fn view(&self) -> TrackV {
        TrackV {
            owner: self.owner@,
            uri: self.uri@,
            title: self.title@,
            like_count: self.like_count,
            index: self.index,
            bump: self.bump,
        }
    }
}

impl View for Playlist {
    type V = PlaylistV;

    open spec fn view(&self) -> PlaylistV {
        PlaylistV {
            owner: self.owner@,
            name: self.name@,
            track_count: self.track_count,
            bump: self.bump,
        }
    }
}

impl View for PlaylistItem {
    type V = PlaylistItemV;

    open spec fn view(&self) -> PlaylistItemV {
        PlaylistItemV {
            playlist: self.playlist@,
            idx: self.idx,
            track_owner: self.track_owner@,
            track_index: self.track_index,
            bump: self.bump,
        }
    }
}

impl View for Like {
    type V = LikeV;

    open spec fn view(&self) -> LikeV {
        LikeV { bump: self.bump }
    }
}

/// One stored record of any schema.
pub enum Record {
    Profile(UserProfile),
    Track(Track),
    Playlist(Playlist),
    Item(PlaylistItem),
    Like(Like),
}

/// Mathematical view of a stored [`Record`].
pub ghost enum RecordV {
    Profile(UserProfileV),
    Track(TrackV),
    Playlist(PlaylistV),
    Item(PlaylistItemV),
    Like(LikeV),
}

impl View for Record {
    type V = RecordV;

    open spec fn view(&self) -> RecordV {
        match self {
            Record::Profile(p) => RecordV::Profile(p@),
            Record::Track(t) => RecordV::Track(t@),
            Record::Playlist(p) => RecordV::Playlist(p@),
            Record::Item(i) => RecordV::Item(i@),
            Record::Like(l) => RecordV::Like(l@),
        }
    }
}

} // verus!
