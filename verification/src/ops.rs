//! The five operation handlers.
//!
//! Each handler takes the caller's identity and the address references the
//! caller supplies, revalidates every address against the library's own
//! derivation before trusting it, checks authorization and lengths, and
//! only then commits — so a failing operation changes nothing.
//!
//! Each handler's whole effect is pinned by a transition function on the
//! store's abstract map, and each preserves store-wide integrity
//! ([`wf_map`]).

use vstd::prelude::*;
use crate::MAX_USERNAME_LEN;
use crate::MAX_URI_LEN;
use crate::MAX_TITLE_LEN;
use crate::MAX_PLAYLIST_NAME_LEN;
use crate::errors::SolifyError;
use crate::records::KeyBytes;
use crate::records::Record;
use crate::records::RecordV;
use crate::records::UserProfile;
use crate::records::UserProfileV;
use crate::records::Track;
use crate::records::TrackV;
use crate::records::Playlist;
use crate::records::PlaylistV;
use crate::records::PlaylistItem;
use crate::records::PlaylistItemV;
use crate::records::Like;
use crate::pda::PROGRAM_ID;
use crate::pda::pda_canonical;
use crate::pda::pda_checked;
use crate::pda::user_seeds;
use crate::pda::track_seeds;
use crate::pda::playlist_seeds;
use crate::pda::item_seeds;
use crate::pda::like_seeds;
use crate::pda::derive_user_profile;
use crate::pda::derive_track;
use crate::pda::derive_playlist;
use crate::pda::derive_playlist_item;
use crate::pda::derive_like;
use crate::pda::user_seeds_vec;
use crate::pda::track_seeds_vec;
use crate::pda::playlist_seeds_vec;
use crate::pda::check_address;
use crate::pda::copy_bytes;
use crate::pda::key_eq;
use crate::store::Store;
use crate::integrity::wf_map;
use crate::integrity::lemma_wf_insert_nontrack;
use crate::integrity::lemma_wf_add_track;
use crate::integrity::lemma_wf_write_track;
use crate::integrity::lemma_wf_write_playlist;

verus! {

/// Addresses and caller identity supplied for [`init_user_profile`].
pub struct InitUserProfile {
    /// The caller: becomes the profile's authority.
    pub authority: KeyBytes,
    /// Where the caller claims the profile must live.
    pub user_profile: KeyBytes,
}

/// Addresses and caller identity supplied for [`add_track`].
pub struct AddTrack {
    /// The caller: must be the profile's recorded authority.
    pub authority: KeyBytes,
    /// Address of the caller's profile.
    pub user_profile: KeyBytes,
    /// Where the caller claims the new track must live.
    pub track: KeyBytes,
}

/// Addresses and caller identity supplied for [`create_playlist`].
pub struct CreatePlaylist {
    /// The caller: becomes the playlist's owner.
    pub authority: KeyBytes,
    /// Where the caller claims the playlist must live.
    pub playlist: KeyBytes,
}

/// Addresses and caller identity supplied for [`add_track_to_playlist`].
pub struct AddTrackToPlaylist {
    /// The caller: must be the playlist's recorded owner.
    pub authority: KeyBytes,
    /// Address of the target playlist.
    pub playlist: KeyBytes,
    /// Address of the referenced track; read-only, any owner's track may
    /// be added.
    pub track: KeyBytes,
    /// Where the caller claims the new entry must live.
    pub playlist_item: KeyBytes,
}

/// Addresses and caller identity supplied for [`like_track`].
pub struct LikeTrack {
    /// The caller: any identity may like any track once.
    pub liker: KeyBytes,
    /// Address of the target track.
    pub track: KeyBytes,
    /// Where the caller claims the like marker must live.
    pub like: KeyBytes,
}

/// What [`init_user_profile`] does to the store's abstract map.
pub open spec fn init_user_profile_spec(
    m: Map<Seq<u8>, RecordV>,
    caller: Seq<u8>,
    supplied: Seq<u8>,
    username: Seq<u8>,
) -> (Map<Seq<u8>, RecordV>, Result<(), SolifyError>) {
    if username.len() > MAX_USERNAME_LEN as int {
        (m, Err(SolifyError::NameTooLong))
    } else {
        match pda_canonical(user_seeds(caller), PROGRAM_ID@) {
            None => (m, Err(SolifyError::AddressMismatch)),
            Some((addr, bump)) => if supplied != addr {
                (m, Err(SolifyError::AddressMismatch))
            } else if m.contains_key(addr) {
                (m, Err(SolifyError::DuplicateCreation))
            } else {
                (
                    m.insert(
                        addr,
                        RecordV::Profile(
                            UserProfileV { authority: caller, username, bump, track_count: 0 },
                        ),
                    ),
                    Ok(()),
                )
            },
        }
    }
}

/// Creates the caller's profile at its derived address with an empty
/// catalog.
pub fn init_user_profile(store: &mut Store, ctx: &InitUserProfile, username: Vec<u8>) -> (r: Result<
    (),
    SolifyError,
>)
    requires
        old(store).valid(),
    ensures
        final(store).valid(),
        ({
            let (m2, res) = init_user_profile_spec(
                old(store)@,
                ctx.authority@,
                ctx.user_profile@,
                username@,
            );
            final(store)@ == m2 && r == res
        }),
        wf_map(old(store)@) ==> wf_map(final(store)@),
{
    if username.len() > MAX_USERNAME_LEN {
        return Err(SolifyError::NameTooLong);
    }
    let (addr, bump) = match derive_user_profile(&ctx.authority) {
        Some(x) => x,
        None => {
            return Err(SolifyError::AddressMismatch);
        },
    };
    if !key_eq(&ctx.user_profile, &addr) {
        return Err(SolifyError::AddressMismatch);
    }
    if store.contains(&addr) {
        return Err(SolifyError::DuplicateCreation);
    }
    let ghost m0 = store@;
    let profile = UserProfile {
        authority: ctx.authority,
        username,
        bump,
        track_count: 0,
    };
    let ghost pv = profile@;
    let res = store.create(addr, Record::Profile(profile));
    proof {
        if wf_map(m0) {
            lemma_wf_insert_nontrack(m0, addr@, RecordV::Profile(pv));
        }
    }
    res
}

/// What [`add_track`] does to the store's abstract map.
pub open spec fn add_track_spec(
    m: Map<Seq<u8>, RecordV>,
    caller: Seq<u8>,
    profile_addr: Seq<u8>,
    track_addr: Seq<u8>,
    uri: Seq<u8>,
    title: Seq<u8>,
) -> (Map<Seq<u8>, RecordV>, Result<(), SolifyError>) {
    if uri.len() > MAX_URI_LEN as int {
        (m, Err(SolifyError::UriTooLong))
    } else if title.len() > MAX_TITLE_LEN as int {
        (m, Err(SolifyError::TitleTooLong))
    } else if !m.contains_key(profile_addr) {
        (m, Err(SolifyError::AddressMismatch))
    } else {
        match m[profile_addr] {
            RecordV::Profile(p) => {
                if pda_checked(user_seeds(p.authority).push(seq![p.bump]), PROGRAM_ID@) != Some(
                    profile_addr,
                ) {
                    (m, Err(SolifyError::AddressMismatch))
                } else if caller != p.authority {
                    (m, Err(SolifyError::AuthorizationFailed))
                } else {
                    match pda_canonical(track_seeds(p.authority, p.track_count), PROGRAM_ID@) {
                        None => (m, Err(SolifyError::AddressMismatch)),
                        Some((ta, tb)) => if track_addr != ta {
                            (m, Err(SolifyError::AddressMismatch))
                        } else if m.contains_key(ta) {
                            (m, Err(SolifyError::DuplicateCreation))
                        } else if p.track_count == u64::MAX {
                            (m, Err(SolifyError::Overflow))
                        } else {
                            (
                                m.insert(
                                    ta,
                                    RecordV::Track(
                                        TrackV {
                                            owner: p.authority,
                                            uri,
                                            title,
                                            like_count: 0,
                                            index: p.track_count,
                                            bump: tb,
                                        },
                                    ),
                                ).insert(
                                    profile_addr,
                                    RecordV::Profile(
                                        UserProfileV {
                                            authority: p.authority,
                                            username: p.username,
                                            bump: p.bump,
                                            track_count: (p.track_count + 1) as u64,
                                        },
                                    ),
                                ),
                                Ok(()),
                            )
                        },
                    }
                }
            },
            _ => (m, Err(SolifyError::AddressMismatch)),
        }
    }
}

/// Adds the next track to the caller's catalog: the new track takes index
/// `track_count` as read before the call, and the counter advances by one
/// in the same transaction.
pub fn add_track(store: &mut Store, ctx: &AddTrack, uri: Vec<u8>, title: Vec<u8>) -> (r: Result<
    (),
    SolifyError,
>)
    requires
        old(store).valid(),
    ensures
        final(store).valid(),
        ({
            let (m2, res) = add_track_spec(
                old(store)@,
                ctx.authority@,
                ctx.user_profile@,
                ctx.track@,
                uri@,
                title@,
            );
            final(store)@ == m2 && r == res
        }),
        wf_map(old(store)@) ==> wf_map(final(store)@),
{
    if uri.len() > MAX_URI_LEN {
        return Err(SolifyError::UriTooLong);
    }
    if title.len() > MAX_TITLE_LEN {
        return Err(SolifyError::TitleTooLong);
    }
    let (p_auth, p_name, p_bump, p_count) = match store.read(&ctx.user_profile) {
        Some(Record::Profile(p)) => (p.authority, copy_bytes(&p.username), p.bump, p.track_count),
        _ => {
            return Err(SolifyError::AddressMismatch);
        },
    };
    match check_address(user_seeds_vec(&p_auth), p_bump) {
        Some(a) => {
            if !key_eq(&a, &ctx.user_profile) {
                return Err(SolifyError::AddressMismatch);
            }
        },
        None => {
            return Err(SolifyError::AddressMismatch);
        },
    }
    if !key_eq(&ctx.authority, &p_auth) {
        return Err(SolifyError::AuthorizationFailed);
    }
    let (taddr, tbump) = match derive_track(&p_auth, p_count) {
        Some(x) => x,
        None => {
            return Err(SolifyError::AddressMismatch);
        },
    };
    if !key_eq(&ctx.track, &taddr) {
        return Err(SolifyError::AddressMismatch);
    }
    if store.contains(&taddr) {
        return Err(SolifyError::DuplicateCreation);
    }
    if p_count == u64::MAX {
        return Err(SolifyError::Overflow);
    }
    let ghost m0 = store@;
    let ghost pv = (match m0[ctx.user_profile@] {
        RecordV::Profile(p) => p,
        _ => arbitrary(),
    });
    let track = Track {
        owner: p_auth,
        uri,
        title,
        like_count: 0,
        index: p_count,
        bump: tbump,
    };
    let ghost tv = track@;
    let _created = store.create(taddr, Record::Track(track));
    let profile2 = UserProfile {
        authority: p_auth,
        username: p_name,
        bump: p_bump,
        track_count: p_count + 1,
    };
    let _wrote = store.write(&ctx.user_profile, Record::Profile(profile2));
    proof {
        if wf_map(m0) {
            lemma_wf_add_track(m0, ctx.user_profile@, pv, taddr@, tv);
        }
    }
    Ok(())
}

/// What [`create_playlist`] does to the store's abstract map.
pub open spec fn create_playlist_spec(
    m: Map<Seq<u8>, RecordV>,
    caller: Seq<u8>,
    supplied: Seq<u8>,
    name: Seq<u8>,
) -> (Map<Seq<u8>, RecordV>, Result<(), SolifyError>) {
    if name.len() > MAX_PLAYLIST_NAME_LEN as int {
        (m, Err(SolifyError::NameTooLong))
    } else {
        match pda_canonical(playlist_seeds(caller, name), PROGRAM_ID@) {
            None => (m, Err(SolifyError::AddressMismatch)),
            Some((addr, bump)) => if supplied != addr {
                (m, Err(SolifyError::AddressMismatch))
            } else if m.contains_key(addr) {
                (m, Err(SolifyError::DuplicateCreation))
            } else {
                (
                    m.insert(
                        addr,
                        RecordV::Playlist(
                            PlaylistV { owner: caller, name, track_count: 0, bump },
                        ),
                    ),
                    Ok(()),
                )
            },
        }
    }
}

/// Creates an empty playlist owned by the caller at the address derived
/// from the caller's identity and the playlist's name.
pub fn create_playlist(store: &mut Store, ctx: &CreatePlaylist, name: Vec<u8>) -> (r: Result<
    (),
    SolifyError,
>)
    requires
        old(store).valid(),
    ensures
        final(store).valid(),
        ({
            let (m2, res) = create_playlist_spec(
                old(store)@,
                ctx.authority@,
                ctx.playlist@,
                name@,
            );
            final(store)@ == m2 && r == res
        }),
        wf_map(old(store)@) ==> wf_map(final(store)@),
{
    if name.len() > MAX_PLAYLIST_NAME_LEN {
        return Err(SolifyError::NameTooLong);
    }
    let (addr, bump) = match derive_playlist(&ctx.authority, &name) {
        Some(x) => x,
        None => {
            return Err(SolifyError::AddressMismatch);
        },
    };
    if !key_eq(&ctx.playlist, &addr) {
        return Err(SolifyError::AddressMismatch);
    }
    if store.contains(&addr) {
        return Err(SolifyError::DuplicateCreation);
    }
    let ghost m0 = store@;
    let playlist = Playlist { owner: ctx.authority, name, track_count: 0, bump };
    let ghost plv = playlist@;
    let res = store.create(addr, Record::Playlist(playlist));
    proof {
        if wf_map(m0) {
            lemma_wf_insert_nontrack(m0, addr@, RecordV::Playlist(plv));
        }
    }
    res
}

/// What [`add_track_to_playlist`] does to the store's abstract map.
pub open spec fn add_track_to_playlist_spec(
    m: Map<Seq<u8>, RecordV>,
    caller: Seq<u8>,
    playlist_addr: Seq<u8>,
    track_addr: Seq<u8>,
    item_addr: Seq<u8>,
) -> (Map<Seq<u8>, RecordV>, Result<(), SolifyError>) {
    if !m.contains_key(playlist_addr) {
        (m, Err(SolifyError::AddressMismatch))
    } else {
        match m[playlist_addr] {
            RecordV::Playlist(pl) => {
                if pda_checked(playlist_seeds(pl.owner, pl.name).push(seq![pl.bump]), PROGRAM_ID@)
                    != Some(playlist_addr) {
                    (m, Err(SolifyError::AddressMismatch))
                } else if caller != pl.owner {
                    (m, Err(SolifyError::NotPlaylistOwner))
                } else if !m.contains_key(track_addr) {
                    (m, Err(SolifyError::AddressMismatch))
                } else {
                    match m[track_addr] {
                        RecordV::Track(t) => {
                            if pda_checked(
                                track_seeds(t.owner, t.index).push(seq![t.bump]),
                                PROGRAM_ID@,
                            ) != Some(track_addr) {
                                (m, Err(SolifyError::AddressMismatch))
                            } else {
                                match pda_canonical(
                                    item_seeds(playlist_addr, pl.track_count),
                                    PROGRAM_ID@,
                                ) {
                                    None => (m, Err(SolifyError::AddressMismatch)),
                                    Some((ia, ib)) => if item_addr != ia {
                                        (m, Err(SolifyError::AddressMismatch))
                                    } else if m.contains_key(ia) {
                                        (m, Err(SolifyError::DuplicateCreation))
                                    } else if pl.track_count == u64::MAX {
                                        (m, Err(SolifyError::Overflow))
                                    } else {
                                        (
                                            m.insert(
                                                ia,
                                                RecordV::Item(
                                                    PlaylistItemV {
                                                        playlist: playlist_addr,
                                                        idx: pl.track_count,
                                                        track_owner: t.owner,
                                                        track_index: t.index,
                                                        bump: ib,
                                                    },
                                                ),
                                            ).insert(
                                                playlist_addr,
                                                RecordV::Playlist(
                                                    PlaylistV {
                                                        owner: pl.owner,
                                                        name: pl.name,
                                                        track_count: (pl.track_count + 1) as u64,
                                                        bump: pl.bump,
                                                    },
                                                ),
                                            ),
                                            Ok(()),
                                        )
                                    },
                                }
                            }
                        },
                        _ => (m, Err(SolifyError::AddressMismatch)),
                    }
                }
            },
            _ => (m, Err(SolifyError::AddressMismatch)),
        }
    }
}

/// Appends a snapshot of a track's (owner, index) to the caller's
/// playlist: the entry takes position `track_count` as read before the
/// call, and the counter advances by one in the same transaction. The
/// referenced track may belong to anyone, but its address must reproduce
/// from its own stored key parts.
pub fn add_track_to_playlist(store: &mut Store, ctx: &AddTrackToPlaylist) -> (r: Result<
    (),
    SolifyError,
>)
    requires
        old(store).valid(),
    ensures
        final(store).valid(),
        ({
            let (m2, res) = add_track_to_playlist_spec(
                old(store)@,
                ctx.authority@,
                ctx.playlist@,
                ctx.track@,
                ctx.playlist_item@,
            );
            final(store)@ == m2 && r == res
        }),
        wf_map(old(store)@) ==> wf_map(final(store)@),
{
    let (pl_owner, pl_name, pl_count, pl_bump) = match store.read(&ctx.playlist) {
        Some(Record::Playlist(pl)) => (pl.owner, copy_bytes(&pl.name), pl.track_count, pl.bump),
        _ => {
            return Err(SolifyError::AddressMismatch);
        },
    };
    match check_address(playlist_seeds_vec(&pl_owner, &pl_name), pl_bump) {
        Some(a) => {
            if !key_eq(&a, &ctx.playlist) {
                return Err(SolifyError::AddressMismatch);
            }
        },
        None => {
            return Err(SolifyError::AddressMismatch);
        },
    }
    if !key_eq(&ctx.authority, &pl_owner) {
        return Err(SolifyError::NotPlaylistOwner);
    }
    let (t_owner, t_index, t_bump) = match store.read(&ctx.track) {
        Some(Record::Track(t)) => (t.owner, t.index, t.bump),
        _ => {
            return Err(SolifyError::AddressMismatch);
        },
    };
    match check_address(track_seeds_vec(&t_owner, t_index), t_bump) {
        Some(a) => {
            if !key_eq(&a, &ctx.track) {
                return Err(SolifyError::AddressMismatch);
            }
        },
        None => {
            return Err(SolifyError::AddressMismatch);
        },
    }
    let (iaddr, ibump) = match derive_playlist_item(&ctx.playlist, pl_count) {
        Some(x) => x,
        None => {
            return Err(SolifyError::AddressMismatch);
        },
    };
    if !key_eq(&ctx.playlist_item, &iaddr) {
        return Err(SolifyError::AddressMismatch);
    }
    if store.contains(&iaddr) {
        return Err(SolifyError::DuplicateCreation);
    }
    if pl_count == u64::MAX {
        return Err(SolifyError::Overflow);
    }
    let ghost m0 = store@;
    let ghost plv = (match m0[ctx.playlist@] {
        RecordV::Playlist(pl) => pl,
        _ => arbitrary(),
    });
    let item = PlaylistItem {
        playlist: ctx.playlist,
        idx: pl_count,
        track_owner: t_owner,
        track_index: t_index,
        bump: ibump,
    };
    let ghost iv = item@;
    let _created = store.create(iaddr, Record::Item(item));
    let playlist2 = Playlist {
        owner: pl_owner,
        name: pl_name,
        track_count: pl_count + 1,
        bump: pl_bump,
    };
    let ghost plv2 = playlist2@;
    let _wrote = store.write(&ctx.playlist, Record::Playlist(playlist2));
    proof {
        if wf_map(m0) {
            lemma_wf_insert_nontrack(m0, iaddr@, RecordV::Item(iv));
            lemma_wf_write_playlist(
                m0.insert(iaddr@, RecordV::Item(iv)),
                ctx.playlist@,
                plv,
                plv2,
            );
        }
    }
    Ok(())
}

/// What [`like_track`] does to the store's abstract map.
pub open spec fn like_track_spec(
    m: Map<Seq<u8>, RecordV>,
    liker: Seq<u8>,
    track_addr: Seq<u8>,
    like_addr: Seq<u8>,
) -> (Map<Seq<u8>, RecordV>, Result<(), SolifyError>) {
    if !m.contains_key(track_addr) {
        (m, Err(SolifyError::AddressMismatch))
    } else {
        match m[track_addr] {
            RecordV::Track(t) => {
                if pda_checked(track_seeds(t.owner, t.index).push(seq![t.bump]), PROGRAM_ID@)
                    != Some(track_addr) {
                    (m, Err(SolifyError::AddressMismatch))
                } else {
                    match pda_canonical(like_seeds(track_addr, liker), PROGRAM_ID@) {
                        None => (m, Err(SolifyError::AddressMismatch)),
                        Some((la, lb)) => if like_addr != la {
                            (m, Err(SolifyError::AddressMismatch))
                        } else if m.contains_key(la) {
                            (m, Err(SolifyError::DuplicateCreation))
                        } else if t.like_count == u64::MAX {
                            (m, Err(SolifyError::Overflow))
                        } else {
                            (
                                m.insert(la, RecordV::Like(crate::records::LikeV { bump: lb }))
                                    .insert(
                                    track_addr,
                                    RecordV::Track(
                                        TrackV {
                                            owner: t.owner,
                                            uri: t.uri,
                                            title: t.title,
                                            like_count: (t.like_count + 1) as u64,
                                            index: t.index,
                                            bump: t.bump,
                                        },
                                    ),
                                ),
                                Ok(()),
                            )
                        },
                    }
                }
            },
            _ => (m, Err(SolifyError::AddressMismatch)),
        }
    }
}

/// Records that the caller likes a track: at most once per (track, liker)
/// pair, enforced by the like marker's address alone, and the track's
/// like counter advances by one in the same transaction.
pub fn like_track(store: &mut Store, ctx: &LikeTrack) -> (r: Result<(), SolifyError>)
    requires
        old(store).valid(),
    ensures
        final(store).valid(),
        ({
            let (m2, res) = like_track_spec(old(store)@, ctx.liker@, ctx.track@, ctx.like@);
            final(store)@ == m2 && r == res
        }),
        wf_map(old(store)@) ==> wf_map(final(store)@),
{
    let (t_owner, t_uri, t_title, t_like, t_index, t_bump) = match store.read(&ctx.track) {
        Some(Record::Track(t)) => (
            t.owner,
            copy_bytes(&t.uri),
            copy_bytes(&t.title),
            t.like_count,
            t.index,
            t.bump,
        ),
        _ => {
            return Err(SolifyError::AddressMismatch);
        },
    };
    match check_address(track_seeds_vec(&t_owner, t_index), t_bump) {
        Some(a) => {
            if !key_eq(&a, &ctx.track) {
                return Err(SolifyError::AddressMismatch);
            }
        },
        None => {
            return Err(SolifyError::AddressMismatch);
        },
    }
    let (laddr, lbump) = match derive_like(&ctx.track, &ctx.liker) {
        Some(x) => x,
        None => {
            return Err(SolifyError::AddressMismatch);
        },
    };
    if !key_eq(&ctx.like, &laddr) {
        return Err(SolifyError::AddressMismatch);
    }
    if store.contains(&laddr) {
        return Err(SolifyError::DuplicateCreation);
    }
    if t_like == u64::MAX {
        return Err(SolifyError::Overflow);
    }
    let ghost m0 = store@;
    let ghost tv = (match m0[ctx.track@] {
        RecordV::Track(t) => t,
        _ => arbitrary(),
    });
    let like = Like { bump: lbump };
    let ghost lv = like@;
    let _created = store.create(laddr, Record::Like(like));
    let track2 = Track {
        owner: t_owner,
        uri: t_uri,
        title: t_title,
        like_count: t_like + 1,
        index: t_index,
        bump: t_bump,
    };
    let ghost tv2 = track2@;
    let _wrote = store.write(&ctx.track, Record::Track(track2));
    proof {
        if wf_map(m0) {
            lemma_wf_insert_nontrack(m0, laddr@, RecordV::Like(lv));
            lemma_wf_write_track(m0.insert(laddr@, RecordV::Like(lv)), ctx.track@, tv, tv2);
        }
    }
    Ok(())
}

} // verus!
