//! End-to-end exercises of the operation handlers against a fresh store,
//! with addresses derived exactly as a client would derive them.

use solify::errors::SolifyError;
use solify::ops::add_track;
use solify::ops::add_track_to_playlist;
use solify::ops::create_playlist;
use solify::ops::init_user_profile;
use solify::ops::like_track;
use solify::ops::AddTrack;
use solify::ops::AddTrackToPlaylist;
use solify::ops::CreatePlaylist;
use solify::ops::InitUserProfile;
use solify::ops::LikeTrack;
use solify::pda::derive_like;
use solify::pda::derive_playlist;
use solify::pda::derive_playlist_item;
use solify::pda::derive_track;
use solify::pda::derive_user_profile;
use solify::records::Record;
use solify::store::Store;

fn key(n: u8) -> [u8; 32] {
    [n; 32]
}

fn setup_profile(store: &mut Store, authority: [u8; 32], username: &[u8]) -> [u8; 32] {
    let (addr, _bump) = derive_user_profile(&authority).unwrap();
    let ctx = InitUserProfile { authority, user_profile: addr };
    init_user_profile(store, &ctx, username.to_vec()).unwrap();
    addr
}

fn setup_track(store: &mut Store, authority: [u8; 32], uri: &[u8], title: &[u8]) -> [u8; 32] {
    let (profile_addr, _b) = derive_user_profile(&authority).unwrap();
    let index = match store.read(&profile_addr) {
        Some(Record::Profile(p)) => p.track_count,
        _ => panic!("profile must exist"),
    };
    let (track_addr, _tb) = derive_track(&authority, index).unwrap();
    let ctx = AddTrack { authority, user_profile: profile_addr, track: track_addr };
    add_track(store, &ctx, uri.to_vec(), title.to_vec()).unwrap();
    track_addr
}

#[test]
fn end_to_end_catalog_flow() {
    let mut store = Store::new();
    let u = key(1);
    let l = key(2);

    // init_user_profile("alice") -> profile{track_count: 0}
    let profile_addr = setup_profile(&mut store, u, b"alice");
    match store.read(&profile_addr) {
        Some(Record::Profile(p)) => {
            assert_eq!(p.authority, u);
            assert_eq!(p.username, b"alice".to_vec());
            assert_eq!(p.track_count, 0);
        },
        _ => panic!("profile not stored"),
    }

    // add_track("ipfs://x", "Song A") -> track{index: 0, like_count: 0}
    let track0 = setup_track(&mut store, u, b"ipfs://x", b"Song A");
    match store.read(&track0) {
        Some(Record::Track(t)) => {
            assert_eq!(t.owner, u);
            assert_eq!(t.uri, b"ipfs://x".to_vec());
            assert_eq!(t.title, b"Song A".to_vec());
            assert_eq!(t.index, 0);
            assert_eq!(t.like_count, 0);
        },
        _ => panic!("track 0 not stored"),
    }
    match store.read(&profile_addr) {
        Some(Record::Profile(p)) => assert_eq!(p.track_count, 1),
        _ => panic!("profile lost"),
    }

    // add_track("ipfs://y", "Song B") -> track{index: 1}
    let track1 = setup_track(&mut store, u, b"ipfs://y", b"Song B");
    match store.read(&track1) {
        Some(Record::Track(t)) => assert_eq!(t.index, 1),
        _ => panic!("track 1 not stored"),
    }
    match store.read(&profile_addr) {
        Some(Record::Profile(p)) => assert_eq!(p.track_count, 2),
        _ => panic!("profile lost"),
    }

    // create_playlist("Favorites") -> playlist{track_count: 0}
    let (playlist_addr, _pb) = derive_playlist(&u, &b"Favorites".to_vec()).unwrap();
    let ctx = CreatePlaylist { authority: u, playlist: playlist_addr };
    create_playlist(&mut store, &ctx, b"Favorites".to_vec()).unwrap();
    match store.read(&playlist_addr) {
        Some(Record::Playlist(pl)) => {
            assert_eq!(pl.owner, u);
            assert_eq!(pl.name, b"Favorites".to_vec());
            assert_eq!(pl.track_count, 0);
        },
        _ => panic!("playlist not stored"),
    }

    // add_track_to_playlist(playlist, track #0) -> item{idx: 0, track_index: 0}
    let (item_addr, _ib) = derive_playlist_item(&playlist_addr, 0).unwrap();
    let ctx = AddTrackToPlaylist {
        authority: u,
        playlist: playlist_addr,
        track: track0,
        playlist_item: item_addr,
    };
    add_track_to_playlist(&mut store, &ctx).unwrap();
    match store.read(&item_addr) {
        Some(Record::Item(it)) => {
            assert_eq!(it.playlist, playlist_addr);
            assert_eq!(it.idx, 0);
            assert_eq!(it.track_owner, u);
            assert_eq!(it.track_index, 0);
        },
        _ => panic!("playlist item not stored"),
    }
    match store.read(&playlist_addr) {
        Some(Record::Playlist(pl)) => assert_eq!(pl.track_count, 1),
        _ => panic!("playlist lost"),
    }

    // like_track(track #0) by L -> track#0.like_count == 1
    let (like_addr, _lb) = derive_like(&track0, &l).unwrap();
    let ctx = LikeTrack { liker: l, track: track0, like: like_addr };
    like_track(&mut store, &ctx).unwrap();
    match store.read(&track0) {
        Some(Record::Track(t)) => assert_eq!(t.like_count, 1),
        _ => panic!("track lost"),
    }
    match store.read(&like_addr) {
        Some(Record::Like(_)) => {},
        _ => panic!("like marker not stored"),
    }
}

#[test]
fn track_indices_are_sequential() {
    let mut store = Store::new();
    let u = key(9);
    let profile_addr = setup_profile(&mut store, u, b"seq");
    for expected in 0u64..5 {
        let track_addr = setup_track(&mut store, u, b"ipfs://t", b"T");
        match store.read(&track_addr) {
            Some(Record::Track(t)) => assert_eq!(t.index, expected),
            _ => panic!("track not stored"),
        }
    }
    match store.read(&profile_addr) {
        Some(Record::Profile(p)) => assert_eq!(p.track_count, 5),
        _ => panic!("profile lost"),
    }
}

#[test]
fn duplicate_profile_rejected() {
    let mut store = Store::new();
    let u = key(3);
    let addr = setup_profile(&mut store, u, b"once");
    let ctx = InitUserProfile { authority: u, user_profile: addr };
    let r = init_user_profile(&mut store, &ctx, b"twice".to_vec());
    assert_eq!(r, Err(SolifyError::DuplicateCreation));
    match store.read(&addr) {
        Some(Record::Profile(p)) => assert_eq!(p.username, b"once".to_vec()),
        _ => panic!("profile lost"),
    }
}

#[test]
fn duplicate_playlist_rejected() {
    let mut store = Store::new();
    let u = key(4);
    let (addr, _b) = derive_playlist(&u, &b"mix".to_vec()).unwrap();
    let ctx = CreatePlaylist { authority: u, playlist: addr };
    create_playlist(&mut store, &ctx, b"mix".to_vec()).unwrap();
    let r = create_playlist(&mut store, &ctx, b"mix".to_vec());
    assert_eq!(r, Err(SolifyError::DuplicateCreation));
}

#[test]
fn missing_profile_rejected() {
    let mut store = Store::new();
    let u = key(5);
    let (profile_addr, _b) = derive_user_profile(&u).unwrap();
    let (track_addr, _tb) = derive_track(&u, 0).unwrap();
    let ctx = AddTrack { authority: u, user_profile: profile_addr, track: track_addr };
    let r = add_track(&mut store, &ctx, b"ipfs://x".to_vec(), b"T".to_vec());
    assert_eq!(r, Err(SolifyError::AddressMismatch));
}

#[test]
fn derivation_is_not_an_echo() {
    let u = key(6);
    let (profile_addr, _b) = derive_user_profile(&u).unwrap();
    // The derived address is a digest of namespace and key parts, never
    // the identity handed in, and different namespaces with the same key
    // parts land at different addresses.
    assert_ne!(profile_addr, u);
    let (track_addr, _tb) = derive_track(&u, 0).unwrap();
    assert_ne!(track_addr, profile_addr);
    let (again, bump_again) = derive_user_profile(&u).unwrap();
    assert_eq!(again, profile_addr);
    assert_eq!(bump_again, _b);
}
