//! The validation, authorization and collision rules, each driven to its
//! error through the public operations.

use solify::errors::SolifyError;
use solify::ops::add_track;
use solify::ops::add_track_to_playlist;
use solify::ops::create_playlist;
use solify::ops::init_user_profile;
use solify::ops::like_track;
use solify::ops::AddTrack;
use solify::ops::AddTrackToPlaylist;
use solify::ops::CreatePlaylist;
use solify::ops::InitUserProfile;
use solify::ops::LikeTrack;
use solify::pda::derive_like;
use solify::pda::derive_playlist;
use solify::pda::derive_playlist_item;
use solify::pda::derive_track;
use solify::pda::derive_user_profile;
use solify::records::Record;
use solify::records::Track;
use solify::records::UserProfile;
use solify::store::Store;

fn key(n: u8) -> [u8; 32] {
    [n; 32]
}

fn profile_with_tracks(store: &mut Store, authority: [u8; 32], n: u64) -> [u8; 32] {
    let (profile_addr, _b) = derive_user_profile(&authority).unwrap();
    let ctx = InitUserProfile { authority, user_profile: profile_addr };
    init_user_profile(store, &ctx, b"u".to_vec()).unwrap();
    for i in 0..n {
        let (track_addr, _tb) = derive_track(&authority, i).unwrap();
        let ctx = AddTrack { authority, user_profile: profile_addr, track: track_addr };
        add_track(store, &ctx, b"ipfs://t".to_vec(), b"T".to_vec()).unwrap();
    }
    profile_addr
}

#[test]
fn username_length_boundary() {
    let mut store = Store::new();
    let u = key(1);
    let (addr, _b) = derive_user_profile(&u).unwrap();
    let ctx = InitUserProfile { authority: u, user_profile: addr };
    let over = vec![b'a'; 33];
    assert_eq!(
        init_user_profile(&mut store, &ctx, over),
        Err(SolifyError::NameTooLong)
    );
    assert!(store.read(&addr).is_none());
    let exact = vec![b'a'; 32];
    assert_eq!(init_user_profile(&mut store, &ctx, exact), Ok(()));
}

#[test]
fn uri_length_boundary() {
    let mut store = Store::new();
    let u = key(2);
    let profile_addr = profile_with_tracks(&mut store, u, 0);
    let (track_addr, _tb) = derive_track(&u, 0).unwrap();
    let ctx = AddTrack { authority: u, user_profile: profile_addr, track: track_addr };
    let over = vec![b'x'; 201];
    assert_eq!(
        add_track(&mut store, &ctx, over, b"T".to_vec()),
        Err(SolifyError::UriTooLong)
    );
    let exact = vec![b'x'; 200];
    assert_eq!(add_track(&mut store, &ctx, exact, b"T".to_vec()), Ok(()));
}

#[test]
fn title_length_boundary() {
    let mut store = Store::new();
    let u = key(3);
    let profile_addr = profile_with_tracks(&mut store, u, 0);
    let (track_addr, _tb) = derive_track(&u, 0).unwrap();
    let ctx = AddTrack { authority: u, user_profile: profile_addr, track: track_addr };
    let over = vec![b't'; 65];
    assert_eq!(
        add_track(&mut store, &ctx, b"ipfs://x".to_vec(), over),
        Err(SolifyError::TitleTooLong)
    );
    let exact = vec![b't'; 64];
    assert_eq!(
        add_track(&mut store, &ctx, b"ipfs://x".to_vec(), exact),
        Ok(())
    );
}

#[test]
fn playlist_name_length_boundary() {
    let mut store = Store::new();
    let u = key(4);
    // The length check comes before any derivation, so the supplied
    // address never matters for an over-long name.
    let over = vec![b'p'; 33];
    let ctx = CreatePlaylist { authority: u, playlist: key(99) };
    assert_eq!(
        create_playlist(&mut store, &ctx, over),
        Err(SolifyError::NameTooLong)
    );
    let exact = vec![b'p'; 32];
    let (addr, _b) = derive_playlist(&u, &exact).unwrap();
    let ctx = CreatePlaylist { authority: u, playlist: addr };
    assert_eq!(create_playlist(&mut store, &ctx, exact), Ok(()));
}

#[test]
fn foreign_authority_rejected() {
    let mut store = Store::new();
    let a = key(5);
    let b = key(6);
    let profile_a = profile_with_tracks(&mut store, a, 1);
    let (track_addr, _tb) = derive_track(&a, 1).unwrap();
    let ctx = AddTrack { authority: b, user_profile: profile_a, track: track_addr };
    let r = add_track(&mut store, &ctx, b"ipfs://x".to_vec(), b"T".to_vec());
    assert_eq!(r, Err(SolifyError::AuthorizationFailed));
    match store.read(&profile_a) {
        Some(Record::Profile(p)) => assert_eq!(p.track_count, 1),
        _ => panic!("profile lost"),
    }
}

#[test]
fn foreign_playlist_owner_rejected() {
    let mut store = Store::new();
    let a = key(7);
    let b = key(8);
    profile_with_tracks(&mut store, a, 1);
    let (playlist_addr, _pb) = derive_playlist(&a, &b"mine".to_vec()).unwrap();
    let ctx = CreatePlaylist { authority: a, playlist: playlist_addr };
    create_playlist(&mut store, &ctx, b"mine".to_vec()).unwrap();
    let (track_addr, _tb) = derive_track(&a, 0).unwrap();
    let (item_addr, _ib) = derive_playlist_item(&playlist_addr, 0).unwrap();
    let ctx = AddTrackToPlaylist {
        authority: b,
        playlist: playlist_addr,
        track: track_addr,
        playlist_item: item_addr,
    };
    let r = add_track_to_playlist(&mut store, &ctx);
    assert_eq!(r, Err(SolifyError::NotPlaylistOwner));
    assert!(store.read(&item_addr).is_none());
}

#[test]
fn duplicate_like_rejected() {
    let mut store = Store::new();
    let u = key(9);
    let l = key(10);
    profile_with_tracks(&mut store, u, 1);
    let (track_addr, _tb) = derive_track(&u, 0).unwrap();
    let (like_addr, _lb) = derive_like(&track_addr, &l).unwrap();
    let ctx = LikeTrack { liker: l, track: track_addr, like: like_addr };
    assert_eq!(like_track(&mut store, &ctx), Ok(()));
    assert_eq!(
        like_track(&mut store, &ctx),
        Err(SolifyError::DuplicateCreation)
    );
    match store.read(&track_addr) {
        Some(Record::Track(t)) => assert_eq!(t.like_count, 1),
        _ => panic!("track lost"),
    }
}

#[test]
fn spoofed_track_rejected() {
    let mut store = Store::new();
    let a = key(11);
    profile_with_tracks(&mut store, a, 1);
    let (playlist_addr, _pb) = derive_playlist(&a, &b"mix".to_vec()).unwrap();
    let ctx = CreatePlaylist { authority: a, playlist: playlist_addr };
    create_playlist(&mut store, &ctx, b"mix".to_vec()).unwrap();
    // Plant a track record whose stored (owner, index) derive elsewhere
    // than the address it sits at.
    let wrong_addr = key(200);
    let spoofed = Track {
        owner: a,
        uri: b"ipfs://fake".to_vec(),
        title: b"Fake".to_vec(),
        like_count: 0,
        index: 7,
        bump: 0,
    };
    store.create(wrong_addr, Record::Track(spoofed)).unwrap();
    let (item_addr, _ib) = derive_playlist_item(&playlist_addr, 0).unwrap();
    let ctx = AddTrackToPlaylist {
        authority: a,
        playlist: playlist_addr,
        track: wrong_addr,
        playlist_item: item_addr,
    };
    let r = add_track_to_playlist(&mut store, &ctx);
    assert_eq!(r, Err(SolifyError::AddressMismatch));
    assert!(store.read(&item_addr).is_none());
    match store.read(&playlist_addr) {
        Some(Record::Playlist(pl)) => assert_eq!(pl.track_count, 0),
        _ => panic!("playlist lost"),
    }
}

#[test]
fn stale_counter_cannot_reclaim_index() {
    let mut store = Store::new();
    let u = key(12);
    profile_with_tracks(&mut store, u, 1);
    // A second creation keyed by the same pre-read counter value derives
    // the same address and finds it occupied.
    let (track_addr, tb) = derive_track(&u, 0).unwrap();
    let stale = Track {
        owner: u,
        uri: b"ipfs://stale".to_vec(),
        title: b"Stale".to_vec(),
        like_count: 0,
        index: 0,
        bump: tb,
    };
    let r = store.create(track_addr, Record::Track(stale));
    assert_eq!(r, Err(SolifyError::DuplicateCreation));
    match store.read(&track_addr) {
        Some(Record::Track(t)) => assert_eq!(t.uri, b"ipfs://t".to_vec()),
        _ => panic!("first track lost"),
    }
}

#[test]
fn track_counter_overflow_rejected() {
    let mut store = Store::new();
    let u = key(13);
    let (profile_addr, pb) = derive_user_profile(&u).unwrap();
    let saturated = UserProfile {
        authority: u,
        username: b"full".to_vec(),
        bump: pb,
        track_count: u64::MAX,
    };
    store
        .create(profile_addr, Record::Profile(saturated))
        .unwrap();
    let (track_addr, _tb) = derive_track(&u, u64::MAX).unwrap();
    let ctx = AddTrack { authority: u, user_profile: profile_addr, track: track_addr };
    let r = add_track(&mut store, &ctx, b"ipfs://x".to_vec(), b"T".to_vec());
    assert_eq!(r, Err(SolifyError::Overflow));
    assert!(store.read(&track_addr).is_none());
}

#[test]
fn like_counter_overflow_rejected() {
    let mut store = Store::new();
    let u = key(14);
    let l = key(15);
    profile_with_tracks(&mut store, u, 1);
    let (track_addr, tb) = derive_track(&u, 0).unwrap();
    // Saturate the like counter in place, keeping the track's identity.
    let saturated = Track {
        owner: u,
        uri: b"ipfs://t".to_vec(),
        title: b"T".to_vec(),
        like_count: u64::MAX,
        index: 0,
        bump: tb,
    };
    assert!(store.write(&track_addr, Record::Track(saturated)));
    let (like_addr, _lb) = derive_like(&track_addr, &l).unwrap();
    let ctx = LikeTrack { liker: l, track: track_addr, like: like_addr };
    let r = like_track(&mut store, &ctx);
    assert_eq!(r, Err(SolifyError::Overflow));
    assert!(store.read(&like_addr).is_none());
}

#[test]
fn supplied_address_must_match_derivation() {
    let mut store = Store::new();
    let u = key(16);
    let (addr, _b) = derive_user_profile(&u).unwrap();
    let wrong = key(17);
    let ctx = InitUserProfile { authority: u, user_profile: wrong };
    assert_eq!(
        init_user_profile(&mut store, &ctx, b"u".to_vec()),
        Err(SolifyError::AddressMismatch)
    );
    assert!(store.read(&addr).is_none());
    assert!(store.read(&wrong).is_none());
}
