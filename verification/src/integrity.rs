//! Store-wide integrity: every live record sits at the address derived
//! from its own key parts, and the track counters are exact.
//!
//! [`wf_map`] is established by the empty store and preserved by every
//! operation. From it follow the collision-freedom and counter guarantees:
//! a profile with `track_count == c` owns tracks at exactly the indices
//! `0 .. c`, each at its derived address, with no gaps and no repeats.

use vstd::prelude::*;
use crate::records::RecordV;
use crate::records::UserProfileV;
use crate::records::TrackV;
use crate::pda::pda_canonical;
use crate::pda::user_seeds;
use crate::pda::track_seeds;
use crate::pda::playlist_seeds;
use crate::pda::item_seeds;
use crate::pda::PROGRAM_ID;

verus! {

/// The record at `addr` reproduces `addr` from its own key parts: the
/// canonical derivation of its identity yields exactly this address and
/// its stored disambiguator. (A like's key parts are not stored on it, so
/// nothing is requireable of it here; its uniqueness is structural.)
pub open spec fn record_bound(addr: Seq<u8>, r: RecordV) -> bool {
    match r {
        RecordV::Profile(p) => pda_canonical(user_seeds(p.authority), PROGRAM_ID@) == Some(
            (addr, p.bump),
        ),
        RecordV::Track(t) => pda_canonical(track_seeds(t.owner, t.index), PROGRAM_ID@) == Some(
            (addr, t.bump),
        ),
        RecordV::Playlist(pl) => pda_canonical(playlist_seeds(pl.owner, pl.name), PROGRAM_ID@)
            == Some((addr, pl.bump)),
        RecordV::Item(it) => pda_canonical(item_seeds(it.playlist, it.idx), PROGRAM_ID@) == Some(
            (addr, it.bump),
        ),
        RecordV::Like(_) => true,
    }
}

/// The profile owned by authority `a`, looked up at its canonical
/// address, if a genuine one lives there.
pub open spec fn owner_profile(m: Map<Seq<u8>, RecordV>, a: Seq<u8>) -> Option<UserProfileV> {
    match pda_canonical(user_seeds(a), PROGRAM_ID@) {
        Some((addr, _bump)) => if m.contains_key(addr) {
            match m[addr] {
                RecordV::Profile(p) => if p.authority == a {
                    Some(p)
                } else {
                    None
                },
                _ => None,
            }
        } else {
            None
        },
        None => None,
    }
}

/// A track owned by `owner` with index `i` lives at its canonical
/// derived address, carrying the canonical disambiguator.
pub open spec fn track_at(m: Map<Seq<u8>, RecordV>, owner: Seq<u8>, i: u64) -> bool {
    match pda_canonical(track_seeds(owner, i), PROGRAM_ID@) {
        Some((addr, bump)) => {
            &&& m.contains_key(addr)
            &&& (m[addr] matches RecordV::Track(t) && t.owner == owner && t.index == i && t.bump
                == bump)
        },
        None => false,
    }
}

/// Every track's owner has a live profile, and the track's index lies
/// below that profile's counter.
pub open spec fn track_supported(m: Map<Seq<u8>, RecordV>, r: RecordV) -> bool {
    match r {
        RecordV::Track(t) => owner_profile(m, t.owner) matches Some(p) && t.index < p.track_count,
        _ => true,
    }
}

/// Every index below a profile's counter is occupied by a track of that
/// authority: the counter never skips and never repeats an index.
pub open spec fn profile_complete(m: Map<Seq<u8>, RecordV>, r: RecordV) -> bool {
    match r {
        RecordV::Profile(p) => forall|i: u64|
            i < p.track_count ==> #[trigger] track_at(m, p.authority, i),
        _ => true,
    }
}

/// Store-wide integrity.
pub open spec fn wf_map(m: Map<Seq<u8>, RecordV>) -> bool {
    &&& forall|a: Seq<u8>| #[trigger] m.contains_key(a) ==> record_bound(a, m[a])
    &&& forall|a: Seq<u8>| #[trigger] m.contains_key(a) ==> track_supported(m, m[a])
    &&& forall|a: Seq<u8>| #[trigger] m.contains_key(a) ==> profile_complete(m, m[a])
}

/// The empty store is well formed.
pub proof fn lemma_wf_empty()
    ensures
        wf_map(Map::<Seq<u8>, RecordV>::empty()),
{
}

/// Adding a fresh, address-bound record that is neither a track nor a
/// profile with a nonzero counter preserves integrity.
pub proof fn lemma_wf_insert_nontrack(m: Map<Seq<u8>, RecordV>, addr: Seq<u8>, r: RecordV)
    requires
        wf_map(m),
        !m.contains_key(addr),
        record_bound(addr, r),
        !(r is Track),
        (r matches RecordV::Profile(p) ==> p.track_count == 0),
    ensures
        wf_map(m.insert(addr, r)),
{
    let m2 = m.insert(addr, r);
    assert forall|a: Seq<u8>| #[trigger] m2.contains_key(a) implies track_supported(m2, m2[a])
        && profile_complete(m2, m2[a]) by {
        if a != addr {
            assert(m.contains_key(a));
            assert(track_supported(m, m[a]));
            assert(profile_complete(m, m[a]));
            match m[a] {
                RecordV::Track(t) => {
                    assert(owner_profile(m2, t.owner) == owner_profile(m, t.owner));
                },
                RecordV::Profile(p) => {
                    assert forall|i: u64| i < p.track_count implies #[trigger] track_at(
                        m2,
                        p.authority,
                        i,
                    ) by {
                        assert(track_at(m, p.authority, i));
                    }
                },
                _ => {},
            }
        }
    }
}

/// Adding the next track under a profile, and advancing that profile's
/// counter by one, preserves integrity.
pub proof fn lemma_wf_add_track(
    m: Map<Seq<u8>, RecordV>,
    pa: Seq<u8>,
    p: UserProfileV,
    d: Seq<u8>,
    t: TrackV,
)
    requires
        wf_map(m),
        m.contains_key(pa),
        m[pa] == RecordV::Profile(p),
        t.owner == p.authority,
        t.index == p.track_count,
        p.track_count < u64::MAX,
        pda_canonical(track_seeds(t.owner, t.index), PROGRAM_ID@) == Some((d, t.bump)),
        !m.contains_key(d),
    ensures
        wf_map(
            m.insert(d, RecordV::Track(t)).insert(
                pa,
                RecordV::Profile(
                    UserProfileV {
                        authority: p.authority,
                        username: p.username,
                        bump: p.bump,
                        track_count: (p.track_count + 1) as u64,
                    },
                ),
            ),
        ),
{
    let p2 = UserProfileV {
        authority: p.authority,
        username: p.username,
        bump: p.bump,
        track_count: (p.track_count + 1) as u64,
    };
    let m2 = m.insert(d, RecordV::Track(t)).insert(pa, RecordV::Profile(p2));
    assert(record_bound(pa, RecordV::Profile(p)));
    assert(pda_canonical(user_seeds(p.authority), PROGRAM_ID@) == Some((pa, p.bump)));
    assert forall|a: Seq<u8>| #[trigger] m2.contains_key(a) implies record_bound(a, m2[a])
        && track_supported(m2, m2[a]) && profile_complete(m2, m2[a]) by {
        lemma_wf_add_track_pointwise(m, pa, p, d, t, a);
    }
}

proof fn lemma_wf_add_track_pointwise(
    m: Map<Seq<u8>, RecordV>,
    pa: Seq<u8>,
    p: UserProfileV,
    d: Seq<u8>,
    t: TrackV,
    a: Seq<u8>,
)
    requires
        wf_map(m),
        m.contains_key(pa),
        m[pa] == RecordV::Profile(p),
        t.owner == p.authority,
        t.index == p.track_count,
        p.track_count < u64::MAX,
        pda_canonical(track_seeds(t.owner, t.index), PROGRAM_ID@) == Some((d, t.bump)),
        !m.contains_key(d),
        m.insert(d, RecordV::Track(t)).insert(
            pa,
            RecordV::Profile(bumped_profile(p)),
        ).contains_key(a),
    ensures
        record_bound(
            a,
            m.insert(d, RecordV::Track(t)).insert(pa, RecordV::Profile(bumped_profile(p)))[a],
        ),
        track_supported(
            m.insert(d, RecordV::Track(t)).insert(pa, RecordV::Profile(bumped_profile(p))),
            m.insert(d, RecordV::Track(t)).insert(pa, RecordV::Profile(bumped_profile(p)))[a],
        ),
        profile_complete(
            m.insert(d, RecordV::Track(t)).insert(pa, RecordV::Profile(bumped_profile(p))),
            m.insert(d, RecordV::Track(t)).insert(pa, RecordV::Profile(bumped_profile(p)))[a],
        ),
{
    let p2 = bumped_profile(p);
    let m2 = m.insert(d, RecordV::Track(t)).insert(pa, RecordV::Profile(p2));
    assert(record_bound(pa, RecordV::Profile(p)));
    assert(pda_canonical(user_seeds(p.authority), PROGRAM_ID@) == Some((pa, p.bump)));
    // The new track is supported by the advanced profile.
    assert(owner_profile(m2, t.owner) == Some(p2));
    if a == pa {
        // The advanced profile: complete up to the new counter.
        assert forall|i: u64| i < p2.track_count implies #[trigger] track_at(m2, p2.authority, i)
            by {
            if i < p.track_count {
                assert(profile_complete(m, m[pa]));
                assert(track_at(m, p.authority, i));
                lemma_track_at_carries(m, pa, p, d, t, p.authority, i);
            } else {
                assert(i == t.index);
                assert(m2.contains_key(d) && m2[d] == RecordV::Track(t));
            }
        }
    } else if a == d {
        // The new track record.
        assert(track_supported(m2, RecordV::Track(t)));
    } else {
        assert(m.contains_key(a));
        assert(record_bound(a, m[a]));
        assert(track_supported(m, m[a]));
        assert(profile_complete(m, m[a]));
        match m[a] {
            RecordV::Track(t0) => {
                let q = owner_profile(m, t0.owner)->Some_0;
                let qa = pda_canonical(user_seeds(t0.owner), PROGRAM_ID@)->Some_0.0;
                if qa == pa {
                    assert(owner_profile(m2, t0.owner) == Some(p2));
                    assert(t0.index < p.track_count <= p2.track_count);
                } else {
                    assert(owner_profile(m2, t0.owner) == owner_profile(m, t0.owner));
                }
            },
            RecordV::Profile(q) => {
                assert forall|i: u64| i < q.track_count implies #[trigger] track_at(
                    m2,
                    q.authority,
                    i,
                ) by {
                    assert(track_at(m, q.authority, i));
                    lemma_track_at_carries(m, pa, p, d, t, q.authority, i);
                }
            },
            _ => {},
        }
    }
}

/// The profile with its counter advanced by one.
pub open spec fn bumped_profile(p: UserProfileV) -> UserProfileV {
    UserProfileV {
        authority: p.authority,
        username: p.username,
        bump: p.bump,
        track_count: (p.track_count + 1) as u64,
    }
}

proof fn lemma_track_at_carries(
    m: Map<Seq<u8>, RecordV>,
    pa: Seq<u8>,
    p: UserProfileV,
    d: Seq<u8>,
    t: TrackV,
    owner: Seq<u8>,
    i: u64,
)
    requires
        m.contains_key(pa),
        m[pa] == RecordV::Profile(p),
        !m.contains_key(d),
        track_at(m, owner, i),
    ensures
        track_at(
            m.insert(d, RecordV::Track(t)).insert(pa, RecordV::Profile(bumped_profile(p))),
            owner,
            i,
        ),
{
    let ta = pda_canonical(track_seeds(owner, i), PROGRAM_ID@)->Some_0.0;
    assert(m.contains_key(ta));
    assert(ta != d);
    assert(ta != pa);  // a track record is not a profile record
}

/// Rewriting a stored track without touching its identity (owner, index,
/// disambiguator) preserves integrity; only its counters may move.
pub proof fn lemma_wf_write_track(m: Map<Seq<u8>, RecordV>, addr: Seq<u8>, t: TrackV, t2: TrackV)
    requires
        wf_map(m),
        m.contains_key(addr),
        m[addr] == RecordV::Track(t),
        t2.owner == t.owner,
        t2.index == t.index,
        t2.bump == t.bump,
    ensures
        wf_map(m.insert(addr, RecordV::Track(t2))),
{
    let m2 = m.insert(addr, RecordV::Track(t2));
    assert forall|a: Seq<u8>| #[trigger] m2.contains_key(a) implies record_bound(a, m2[a])
        && track_supported(m2, m2[a]) && profile_complete(m2, m2[a]) by {
        assert(m.contains_key(a));
        assert(record_bound(a, m[a]));
        assert(track_supported(m, m[a]));
        assert(profile_complete(m, m[a]));
        match m2[a] {
            RecordV::Track(t0) => {
                assert(owner_profile(m2, t0.owner) == owner_profile(m, t0.owner));
                if a == addr {
                    assert(track_supported(m, m[addr]));
                }
            },
            RecordV::Profile(q) => {
                assert forall|i: u64| i < q.track_count implies #[trigger] track_at(
                    m2,
                    q.authority,
                    i,
                ) by {
                    assert(track_at(m, q.authority, i));
                    let ta = pda_canonical(track_seeds(q.authority, i), PROGRAM_ID@)->Some_0.0;
                    if ta == addr {
                        assert(m2[ta] == RecordV::Track(t2));
                    }
                }
            },
            _ => {},
        }
    }
}

/// Rewriting a stored playlist without touching its identity (owner,
/// name, disambiguator) preserves integrity; only its counter may move.
pub proof fn lemma_wf_write_playlist(
    m: Map<Seq<u8>, RecordV>,
    addr: Seq<u8>,
    pl: crate::records::PlaylistV,
    pl2: crate::records::PlaylistV,
)
    requires
        wf_map(m),
        m.contains_key(addr),
        m[addr] == RecordV::Playlist(pl),
        pl2.owner == pl.owner,
        pl2.name == pl.name,
        pl2.bump == pl.bump,
    ensures
        wf_map(m.insert(addr, RecordV::Playlist(pl2))),
{
    let m2 = m.insert(addr, RecordV::Playlist(pl2));
    assert forall|a: Seq<u8>| #[trigger] m2.contains_key(a) implies record_bound(a, m2[a])
        && track_supported(m2, m2[a]) && profile_complete(m2, m2[a]) by {
        assert(m.contains_key(a));
        assert(record_bound(a, m[a]));
        assert(track_supported(m, m[a]));
        assert(profile_complete(m, m[a]));
        match m2[a] {
            RecordV::Track(t0) => {
                assert(owner_profile(m2, t0.owner) == owner_profile(m, t0.owner));
            },
            RecordV::Profile(q) => {
                assert forall|i: u64| i < q.track_count implies #[trigger] track_at(
                    m2,
                    q.authority,
                    i,
                ) by {
                    assert(track_at(m, q.authority, i));
                    let ta = pda_canonical(track_seeds(q.authority, i), PROGRAM_ID@)->Some_0.0;
                    assert(ta != addr);  // a track record is not a playlist record
                }
            },
            _ => {},
        }
    }
}

} // verus!
