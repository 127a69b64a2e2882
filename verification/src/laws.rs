//! The library's guarantees, stated and proved as laws over the
//! operations' transition functions and the store integrity predicate.

use vstd::prelude::*;
use crate::MAX_USERNAME_LEN;
use crate::MAX_URI_LEN;
use crate::MAX_TITLE_LEN;
use crate::MAX_PLAYLIST_NAME_LEN;
use crate::errors::SolifyError;
use crate::records::RecordV;
use crate::pda::PROGRAM_ID;
use crate::pda::pda_canonical;
use crate::pda::pda_checked;
use crate::pda::user_seeds;
use crate::pda::track_seeds;
use crate::pda::playlist_seeds;
use crate::pda::like_seeds;
use crate::ops::init_user_profile_spec;
use crate::ops::add_track_spec;
use crate::ops::create_playlist_spec;
use crate::ops::add_track_to_playlist_spec;
use crate::ops::like_track_spec;
use crate::integrity::wf_map;
use crate::integrity::owner_profile;
use crate::integrity::track_at;
use crate::integrity::record_bound;

verus! {

/// A username at its maximum byte length is never rejected for length,
/// and one byte over is always rejected with `NameTooLong`, before any
/// derivation or storage is attempted. With the address conditions in
/// place, creation at the maximum length succeeds outright.
pub proof fn lemma_init_length_boundary(
    m: Map<Seq<u8>, RecordV>,
    caller: Seq<u8>,
    supplied: Seq<u8>,
    username: Seq<u8>,
)
    ensures
        username.len() <= MAX_USERNAME_LEN as int && (match pda_canonical(
            user_seeds(caller),
            PROGRAM_ID@,
        ) {
            Some((addr, bump)) => supplied == addr && !m.contains_key(addr),
            None => false,
        }) ==> init_user_profile_spec(m, caller, supplied, username).1 is Ok,
        username.len() > MAX_USERNAME_LEN as int ==> init_user_profile_spec(
            m,
            caller,
            supplied,
            username,
        ) == (m, Err::<(), SolifyError>(SolifyError::NameTooLong)),
{
}

/// A URI or title at its maximum byte length is never rejected for
/// length; one byte over fails with its own length error and changes
/// nothing. With the authorization and address conditions in place,
/// creation at the maximum lengths succeeds outright.
pub proof fn lemma_add_track_length_boundary(
    m: Map<Seq<u8>, RecordV>,
    caller: Seq<u8>,
    profile_addr: Seq<u8>,
    track_addr: Seq<u8>,
    uri: Seq<u8>,
    title: Seq<u8>,
)
    ensures
        uri.len() > MAX_URI_LEN as int ==> add_track_spec(
            m,
            caller,
            profile_addr,
            track_addr,
            uri,
            title,
        ) == (m, Err::<(), SolifyError>(SolifyError::UriTooLong)),
        uri.len() <= MAX_URI_LEN as int && title.len() > MAX_TITLE_LEN as int ==> add_track_spec(
            m,
            caller,
            profile_addr,
            track_addr,
            uri,
            title,
        ) == (m, Err::<(), SolifyError>(SolifyError::TitleTooLong)),
        uri.len() <= MAX_URI_LEN as int && title.len() <= MAX_TITLE_LEN as int && (
        m.contains_key(profile_addr) && (m[profile_addr] matches RecordV::Profile(p) && {
            &&& pda_checked(user_seeds(p.authority).push(seq![p.bump]), PROGRAM_ID@) == Some(
                profile_addr,
            )
            &&& caller == p.authority
            &&& p.track_count < u64::MAX
            &&& (match pda_canonical(track_seeds(p.authority, p.track_count), PROGRAM_ID@) {
                Some((ta, tb)) => track_addr == ta && !m.contains_key(ta),
                None => false,
            })
        })) ==> add_track_spec(m, caller, profile_addr, track_addr, uri, title).1 is Ok,
{
}

/// A playlist name at its maximum byte length is never rejected for
/// length, and one byte over fails with `NameTooLong`, changing nothing.
pub proof fn lemma_create_playlist_length_boundary(
    m: Map<Seq<u8>, RecordV>,
    caller: Seq<u8>,
    supplied: Seq<u8>,
    name: Seq<u8>,
)
    ensures
        name.len() <= MAX_PLAYLIST_NAME_LEN as int && (match pda_canonical(
            playlist_seeds(caller, name),
            PROGRAM_ID@,
        ) {
            Some((addr, bump)) => supplied == addr && !m.contains_key(addr),
            None => false,
        }) ==> create_playlist_spec(m, caller, supplied, name).1 is Ok,
        name.len() > MAX_PLAYLIST_NAME_LEN as int ==> create_playlist_spec(
            m,
            caller,
            supplied,
            name,
        ) == (m, Err::<(), SolifyError>(SolifyError::NameTooLong)),
{
}

/// In a well-formed store, a profile with counter `c` owns tracks at
/// exactly the indices `0 .. c`: every index below `c` is occupied by a
/// track of that authority at its derived address, and no owned track
/// reaches `c`. The counter after `N` successful track additions is `N`
/// by the operations' own contracts (it starts at zero and each success
/// adds one), so the assigned indices are exactly `0, 1, ..., N-1`,
/// without gaps.
pub proof fn lemma_track_indices_exact(m: Map<Seq<u8>, RecordV>, authority: Seq<u8>)
    requires
        wf_map(m),
        owner_profile(m, authority) is Some,
    ensures
        forall|i: u64|
            i < owner_profile(m, authority)->Some_0.track_count ==> #[trigger] track_at(
                m,
                authority,
                i,
            ),
        forall|a: Seq<u8>|
            m.contains_key(a) && (#[trigger] m[a] matches RecordV::Track(t) && t.owner
                == authority) ==> (m[a] matches RecordV::Track(t) && t.index < owner_profile(
                m,
                authority,
            )->Some_0.track_count),
{
    let pa = pda_canonical(user_seeds(authority), PROGRAM_ID@)->Some_0.0;
    assert(m.contains_key(pa));
    assert forall|a: Seq<u8>|
        m.contains_key(a) && (#[trigger] m[a] matches RecordV::Track(t) && t.owner
            == authority) implies (m[a] matches RecordV::Track(t) && t.index < owner_profile(
        m,
        authority,
    )->Some_0.track_count) by {
        assert(crate::integrity::track_supported(m, m[a]));
    }
}

/// In a well-formed store, no index is ever assigned twice: two live
/// tracks with the same owner and the same index are one and the same
/// record, because each sits at the address derived from that very
/// (owner, index) pair.
pub proof fn lemma_track_index_unique(m: Map<Seq<u8>, RecordV>, a1: Seq<u8>, a2: Seq<u8>)
    requires
        wf_map(m),
        m.contains_key(a1),
        m.contains_key(a2),
        m[a1] is Track,
        m[a2] is Track,
        m[a1]->Track_0.owner == m[a2]->Track_0.owner,
        m[a1]->Track_0.index == m[a2]->Track_0.index,
    ensures
        a1 == a2,
{
    assert(record_bound(a1, m[a1]));
    assert(record_bound(a2, m[a2]));
}

/// One honest `add_track` submission: the client derives the supplied
/// profile and track addresses canonically from the live profile's
/// counter, exactly as the operation itself will.
pub open spec fn honest_add_track(
    m: Map<Seq<u8>, RecordV>,
    caller: Seq<u8>,
    uri: Seq<u8>,
    title: Seq<u8>,
) -> (Map<Seq<u8>, RecordV>, Result<(), SolifyError>) {
    match owner_profile(m, caller) {
        Some(p) => match (
            pda_canonical(user_seeds(caller), PROGRAM_ID@),
            pda_canonical(track_seeds(caller, p.track_count), PROGRAM_ID@),
        ) {
            (Some((pa, _pb)), Some((ta, _tb))) => add_track_spec(m, caller, pa, ta, uri, title),
            _ => (m, Err(SolifyError::AddressMismatch)),
        },
        None => (m, Err(SolifyError::AddressMismatch)),
    }
}

/// A whole sequence of honest `add_track` submissions, stopping at the
/// first failure.
pub open spec fn honest_add_tracks(
    m: Map<Seq<u8>, RecordV>,
    caller: Seq<u8>,
    inputs: Seq<(Seq<u8>, Seq<u8>)>,
) -> (Map<Seq<u8>, RecordV>, Result<(), SolifyError>)
    decreases inputs.len(),
{
    if inputs.len() == 0 {
        (m, Ok(()))
    } else {
        let (m1, r1) = honest_add_track(m, caller, inputs[0].0, inputs[0].1);
        if r1 is Err {
            (m1, r1)
        } else {
            honest_add_tracks(m1, caller, inputs.drop_first())
        }
    }
}

proof fn lemma_honest_add_track_ok(
    m: Map<Seq<u8>, RecordV>,
    caller: Seq<u8>,
    uri: Seq<u8>,
    title: Seq<u8>,
)
    requires
        wf_map(m),
        honest_add_track(m, caller, uri, title).1 is Ok,
    ensures
        ({
            let m1 = honest_add_track(m, caller, uri, title).0;
            &&& wf_map(m1)
            &&& owner_profile(m1, caller) is Some
            &&& owner_profile(m1, caller)->Some_0.track_count == owner_profile(
                m,
                caller,
            )->Some_0.track_count + 1
        }),
{
    let p = owner_profile(m, caller)->Some_0;
    let pa = pda_canonical(user_seeds(caller), PROGRAM_ID@)->Some_0.0;
    let (ta, tb) = pda_canonical(track_seeds(caller, p.track_count), PROGRAM_ID@)->Some_0;
    assert(m.contains_key(pa) && m[pa] == RecordV::Profile(p));
    let t = crate::records::TrackV {
        owner: caller,
        uri,
        title,
        like_count: 0,
        index: p.track_count,
        bump: tb,
    };
    crate::integrity::lemma_wf_add_track(m, pa, p, ta, t);
}

/// For any sequence of `add_track` submissions by one authority against
/// its live profile, submitted honestly and all succeeding: the
/// profile's counter ends exactly `N` higher, and the tracks owned by
/// that authority occupy exactly the indices below it — `N` submissions
/// on a fresh profile assign the indices `0, 1, ..., N-1`, with no gaps
/// and no repeats (see also `lemma_track_index_unique`).
pub proof fn lemma_sequential_indices(
    m: Map<Seq<u8>, RecordV>,
    caller: Seq<u8>,
    inputs: Seq<(Seq<u8>, Seq<u8>)>,
)
    requires
        wf_map(m),
        owner_profile(m, caller) is Some,
        honest_add_tracks(m, caller, inputs).1 is Ok,
        owner_profile(m, caller)->Some_0.track_count + inputs.len() <= u64::MAX,
    ensures
        ({
            let m2 = honest_add_tracks(m, caller, inputs).0;
            &&& wf_map(m2)
            &&& owner_profile(m2, caller) is Some
            &&& owner_profile(m2, caller)->Some_0.track_count == owner_profile(
                m,
                caller,
            )->Some_0.track_count + inputs.len()
            &&& forall|i: u64|
                i < owner_profile(m, caller)->Some_0.track_count + inputs.len()
                    ==> #[trigger] track_at(m2, caller, i)
        }),
    decreases inputs.len(),
{
    if inputs.len() == 0 {
        lemma_track_indices_exact(m, caller);
    } else {
        let (m1, r1) = honest_add_track(m, caller, inputs[0].0, inputs[0].1);
        lemma_honest_add_track_ok(m, caller, inputs[0].0, inputs[0].1);
        lemma_sequential_indices(m1, caller, inputs.drop_first());
    }
}

/// In a well-formed store there is one profile per authority identity:
/// two live profiles recording the same authority are the same record.
pub proof fn lemma_profile_unique(m: Map<Seq<u8>, RecordV>, a1: Seq<u8>, a2: Seq<u8>)
    requires
        wf_map(m),
        m.contains_key(a1),
        m.contains_key(a2),
        m[a1] is Profile,
        m[a2] is Profile,
        m[a1]->Profile_0.authority == m[a2]->Profile_0.authority,
    ensures
        a1 == a2,
{
    assert(record_bound(a1, m[a1]));
    assert(record_bound(a2, m[a2]));
}

/// In a well-formed store there is one playlist per (owner, name) pair:
/// two live playlists recording the same owner and name are the same
/// record.
pub proof fn lemma_playlist_unique(m: Map<Seq<u8>, RecordV>, a1: Seq<u8>, a2: Seq<u8>)
    requires
        wf_map(m),
        m.contains_key(a1),
        m.contains_key(a2),
        m[a1] is Playlist,
        m[a2] is Playlist,
        m[a1]->Playlist_0.owner == m[a2]->Playlist_0.owner,
        m[a1]->Playlist_0.name == m[a2]->Playlist_0.name,
    ensures
        a1 == a2,
{
    assert(record_bound(a1, m[a1]));
    assert(record_bound(a2, m[a2]));
}

/// In a well-formed store a playlist position is filled once: two live
/// entries recording the same playlist and position are the same record.
pub proof fn lemma_playlist_item_unique(m: Map<Seq<u8>, RecordV>, a1: Seq<u8>, a2: Seq<u8>)
    requires
        wf_map(m),
        m.contains_key(a1),
        m.contains_key(a2),
        m[a1] is Item,
        m[a2] is Item,
        m[a1]->Item_0.playlist == m[a2]->Item_0.playlist,
        m[a1]->Item_0.idx == m[a2]->Item_0.idx,
    ensures
        a1 == a2,
{
    assert(record_bound(a1, m[a1]));
    assert(record_bound(a2, m[a2]));
}

/// Once a track index has been claimed, the address derived for that
/// (owner, index) pair is occupied, so a second creation attempt keyed by
/// the same pre-read counter value fails with `DuplicateCreation` by the
/// store's creation contract — the two attempts can never both succeed.
pub proof fn lemma_claimed_index_stays_claimed(m: Map<Seq<u8>, RecordV>, owner: Seq<u8>, i: u64)
    requires
        track_at(m, owner, i),
    ensures
        (match pda_canonical(track_seeds(owner, i), PROGRAM_ID@) {
            Some((d, b)) => m.contains_key(d),
            None => false,
        }),
{
}

/// A successful `add_track` assigns the new track exactly the counter
/// value read before the call, starts its like counter at zero, and
/// advances the profile's counter by exactly one — so starting from a
/// fresh profile's zero, `N` successes leave the counter at `N` and
/// assign the indices `0, 1, ..., N-1` in order.
pub proof fn lemma_add_track_advances_counter(
    m: Map<Seq<u8>, RecordV>,
    caller: Seq<u8>,
    profile_addr: Seq<u8>,
    track_addr: Seq<u8>,
    uri: Seq<u8>,
    title: Seq<u8>,
)
    requires
        add_track_spec(m, caller, profile_addr, track_addr, uri, title).1 is Ok,
    ensures
        ({
            let c = m[profile_addr]->Profile_0.track_count;
            let m2 = add_track_spec(m, caller, profile_addr, track_addr, uri, title).0;
            &&& m2.contains_key(profile_addr)
            &&& m2[profile_addr] matches RecordV::Profile(p2) && p2.track_count == c + 1
            &&& m2.contains_key(track_addr)
            &&& (m2[track_addr] matches RecordV::Track(t) && t.index == c && t.like_count == 0
                && t.owner == caller)
        }),
{
}

/// A successful `add_track_to_playlist` assigns the new entry exactly
/// the playlist counter read before the call, snapshots the referenced
/// track's (owner, index), and advances the playlist's counter by one.
pub proof fn lemma_add_item_advances_counter(
    m: Map<Seq<u8>, RecordV>,
    caller: Seq<u8>,
    playlist_addr: Seq<u8>,
    track_addr: Seq<u8>,
    item_addr: Seq<u8>,
)
    requires
        add_track_to_playlist_spec(m, caller, playlist_addr, track_addr, item_addr).1 is Ok,
    ensures
        ({
            let c = m[playlist_addr]->Playlist_0.track_count;
            let m2 = add_track_to_playlist_spec(m, caller, playlist_addr, track_addr, item_addr).0;
            &&& m2.contains_key(playlist_addr)
            &&& m2[playlist_addr] matches RecordV::Playlist(pl2) && pl2.track_count == c + 1
            &&& m2.contains_key(item_addr)
            &&& (m2[item_addr] matches RecordV::Item(it) && it.idx == c && it.playlist
                == playlist_addr && it.track_owner == m[track_addr]->Track_0.owner
                && it.track_index == m[track_addr]->Track_0.index)
        }),
{
}

/// A successful `like_track` mints the like marker and advances the
/// track's like counter by exactly one, touching nothing else of the
/// track.
pub proof fn lemma_like_advances_counter(
    m: Map<Seq<u8>, RecordV>,
    liker: Seq<u8>,
    track_addr: Seq<u8>,
    like_addr: Seq<u8>,
)
    requires
        like_track_spec(m, liker, track_addr, like_addr).1 is Ok,
    ensures
        ({
            let t = m[track_addr]->Track_0;
            let m2 = like_track_spec(m, liker, track_addr, like_addr).0;
            &&& m2.contains_key(track_addr)
            &&& (m2[track_addr] matches RecordV::Track(t2) && t2.like_count == t.like_count + 1
                && t2.owner == t.owner && t2.index == t.index && t2.uri == t.uri && t2.title
                == t.title)
            &&& m2.contains_key(like_addr)
            &&& m2[like_addr] is Like
        }),
{
}

/// An `add_track` whose caller is not the profile's recorded authority
/// fails with `AuthorizationFailed` and leaves the store — in particular
/// the profile's counter — unchanged.
pub proof fn lemma_add_track_authorization(
    m: Map<Seq<u8>, RecordV>,
    caller: Seq<u8>,
    profile_addr: Seq<u8>,
    track_addr: Seq<u8>,
    uri: Seq<u8>,
    title: Seq<u8>,
)
    requires
        uri.len() <= MAX_URI_LEN as int,
        title.len() <= MAX_TITLE_LEN as int,
        m.contains_key(profile_addr),
        m[profile_addr] is Profile,
        pda_checked(
            user_seeds(m[profile_addr]->Profile_0.authority).push(
                seq![m[profile_addr]->Profile_0.bump],
            ),
            PROGRAM_ID@,
        ) == Some(profile_addr),
        caller != m[profile_addr]->Profile_0.authority,
    ensures
        add_track_spec(m, caller, profile_addr, track_addr, uri, title) == (
            m,
            Err::<(), SolifyError>(SolifyError::AuthorizationFailed),
        ),
{
}

/// A second like of the same track by the same liker fails with
/// `DuplicateCreation` and changes nothing: the like marker minted by the
/// first success occupies the one address the second attempt derives.
pub proof fn lemma_second_like_rejected(
    m: Map<Seq<u8>, RecordV>,
    liker: Seq<u8>,
    track_addr: Seq<u8>,
    like_addr: Seq<u8>,
)
    requires
        m.contains_key(track_addr),
        m[track_addr] is Track,
        pda_checked(
            track_seeds(m[track_addr]->Track_0.owner, m[track_addr]->Track_0.index).push(
                seq![m[track_addr]->Track_0.bump],
            ),
            PROGRAM_ID@,
        ) == Some(track_addr),
        (match pda_canonical(like_seeds(track_addr, liker), PROGRAM_ID@) {
            Some((la, lb)) => like_addr == la && m.contains_key(la),
            None => false,
        }),
    ensures
        like_track_spec(m, liker, track_addr, like_addr) == (
            m,
            Err::<(), SolifyError>(SolifyError::DuplicateCreation),
        ),
{
}

/// An `add_track_to_playlist` whose supplied track record does not
/// re-derive — from its own stored (owner, index) and disambiguator — to
/// the supplied track address fails with `AddressMismatch` and creates no
/// playlist entry.
pub proof fn lemma_spoofed_track_rejected(
    m: Map<Seq<u8>, RecordV>,
    caller: Seq<u8>,
    playlist_addr: Seq<u8>,
    track_addr: Seq<u8>,
    item_addr: Seq<u8>,
)
    requires
        m.contains_key(playlist_addr),
        m[playlist_addr] is Playlist,
        pda_checked(
            playlist_seeds(m[playlist_addr]->Playlist_0.owner, m[playlist_addr]->Playlist_0.name)
                .push(seq![m[playlist_addr]->Playlist_0.bump]),
            PROGRAM_ID@,
        ) == Some(playlist_addr),
        caller == m[playlist_addr]->Playlist_0.owner,
        m.contains_key(track_addr) && m[track_addr] is Track ==> pda_checked(
            track_seeds(m[track_addr]->Track_0.owner, m[track_addr]->Track_0.index).push(
                seq![m[track_addr]->Track_0.bump],
            ),
            PROGRAM_ID@,
        ) != Some(track_addr),
    ensures
        add_track_to_playlist_spec(m, caller, playlist_addr, track_addr, item_addr) == (
            m,
            Err::<(), SolifyError>(SolifyError::AddressMismatch),
        ),
{
}

} // verus!
