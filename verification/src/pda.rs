//! Address derivation.
//!
//! Every record's address is a pure function of a namespace tag and the
//! record's key parts. The derivation itself is the host's program-derived
//! address scheme, reached through two trusted wrappers; everything the
//! rest of the library needs of it is stated over the two names
//! [`pda_canonical`] and [`pda_checked`].
//!
//! The creation path uses [`find_program_address`], which also discovers
//! the disambiguator ("bump") that must be persisted with the record.
//! Verification of an already-stored record recomputes the address from
//! the record's own key parts plus its stored bump, and fails closed on
//! any difference.

use vstd::prelude::*;
use vstd::bytes::spec_u64_to_le_bytes;
use vstd::bytes::u64_to_le_bytes;
use crate::records::KeyBytes;

verus! {

/// The identity of this record store's own address space: all addresses
/// are derived under this program id.
pub const PROGRAM_ID: KeyBytes = [
    11u8, 22u8, 33u8, 44u8, 55u8, 66u8, 77u8, 88u8, 99u8, 110u8, 121u8, 132u8, 143u8, 154u8,
    165u8, 176u8, 187u8, 198u8, 209u8, 220u8, 231u8, 242u8, 253u8, 8u8, 19u8, 30u8, 41u8, 52u8,
    63u8, 74u8, 85u8, 96u8,
];

/// What the canonical derivation returns for a seed list: the address and
/// the discovered disambiguator, or nothing when no disambiguator exists.
pub uninterp spec fn pda_canonical(seeds: Seq<Seq<u8>>, program_id: Seq<u8>) -> Option<
    (Seq<u8>, u8),
>;

/// What recomputing an address from seeds that already carry their
/// disambiguator returns, or nothing when those seeds reach no address.
pub uninterp spec fn pda_checked(seeds: Seq<Seq<u8>>, program_id: Seq<u8>) -> Option<Seq<u8>>;

/// Relies on `anchor_lang`'s re-exported `Pubkey::try_find_program_address`:
/// it searches disambiguators from the top down and returns the first
/// (address, bump) that `Pubkey::create_program_address` accepts, so the
/// result is a function of the seeds and program id alone, and recomputing
/// the address from the seeds plus the returned bump reproduces it.
#[verifier::external_body]
fn find_program_address(seeds: &Vec<Vec<u8>>, program_id: &KeyBytes) -> (r: Option<(KeyBytes, u8)>)
    ensures
        (match r {
            Some((addr, bump)) => {
                &&& pda_canonical(seeds.deep_view(), program_id@) == Some((addr@, bump))
                &&& pda_checked(seeds.deep_view().push(seq![bump]), program_id@) == Some(addr@)
            },
            None => pda_canonical(seeds.deep_view(), program_id@) is None,
        }),
{
    let pid = anchor_lang::prelude::Pubkey::new_from_array(*program_id);
    let seed_refs: Vec<&[u8]> = seeds.iter().map(|s| s.as_slice()).collect();
    anchor_lang::prelude::Pubkey::try_find_program_address(&seed_refs, &pid)
        .map(|(addr, bump)| (addr.to_bytes(), bump))
}

/// Relies on `anchor_lang`'s re-exported `Pubkey::create_program_address`:
/// it recomputes the address for seeds whose last element is the stored
/// disambiguator, deterministically in the seeds and program id; seed
/// lists it rejects are reported as an error, never a panic.
#[verifier::external_body]
fn create_program_address(seeds: &Vec<Vec<u8>>, program_id: &KeyBytes) -> (r: Option<KeyBytes>)
    ensures
        (match r {
            Some(addr) => pda_checked(seeds.deep_view(), program_id@) == Some(addr@),
            None => pda_checked(seeds.deep_view(), program_id@) is None,
        }),
{
    let pid = anchor_lang::prelude::Pubkey::new_from_array(*program_id);
    let seed_refs: Vec<&[u8]> = seeds.iter().map(|s| s.as_slice()).collect();
    anchor_lang::prelude::Pubkey::create_program_address(&seed_refs, &pid)
        .ok()
        .map(|addr| addr.to_bytes())
}

/// The namespace tag of profile addresses: the bytes of `"user"`.
pub open spec fn ns_user() -> Seq<u8> {
    seq![117u8, 115u8, 101u8, 114u8]
}

/// The namespace tag of track addresses: the bytes of `"track"`.
pub open spec fn ns_track() -> Seq<u8> {
    seq![116u8, 114u8, 97u8, 99u8, 107u8]
}

/// The namespace tag of playlist addresses: the bytes of `"playlist"`.
pub open spec fn ns_playlist() -> Seq<u8> {
    seq![112u8, 108u8, 97u8, 121u8, 108u8, 105u8, 115u8, 116u8]
}

/// The namespace tag of playlist-entry addresses: the bytes of
/// `"playlist_item"`.
pub open spec fn ns_item() -> Seq<u8> {
    seq![
        112u8, 108u8, 97u8, 121u8, 108u8, 105u8, 115u8, 116u8, 95u8, 105u8, 116u8, 101u8, 109u8,
    ]
}

/// The namespace tag of like addresses: the bytes of `"like"`.
pub open spec fn ns_like() -> Seq<u8> {
    seq![108u8, 105u8, 107u8, 101u8]
}

/// The seed list of a profile address.
pub open spec fn user_seeds(authority: Seq<u8>) -> Seq<Seq<u8>> {
    seq![ns_user(), authority]
}

/// The seed list of a track address.
pub open spec fn track_seeds(owner: Seq<u8>, index: u64) -> Seq<Seq<u8>> {
    seq![ns_track(), owner, spec_u64_to_le_bytes(index)]
}

/// The seed list of a playlist address.
pub open spec fn playlist_seeds(owner: Seq<u8>, name: Seq<u8>) -> Seq<Seq<u8>> {
    seq![ns_playlist(), owner, name]
}

/// The seed list of a playlist-entry address.
pub open spec fn item_seeds(playlist: Seq<u8>, idx: u64) -> Seq<Seq<u8>> {
    seq![ns_item(), playlist, spec_u64_to_le_bytes(idx)]
}

/// The seed list of a like address.
pub open spec fn like_seeds(track: Seq<u8>, liker: Seq<u8>) -> Seq<Seq<u8>> {
    seq![ns_like(), track, liker]
}

/// Copies a 32-byte key into a freshly allocated byte vector.
fn key_to_vec(k: &KeyBytes) -> (v: Vec<u8>)
    ensures
        v@ == k@,
{
    let mut v: Vec<u8> = Vec::new();
    let mut i: usize = 0;
    while i < 32
        invariant
            i <= 32,
            v@ == k@.subrange(0, i as int),
        decreases 32 - i,
    {
        v.push(k[i]);
        i = i + 1;
    }
    proof {
        assert(v@ =~= k@);
    }
    v
}

/// Compares two 32-byte keys for equality.
pub fn key_eq(a: &KeyBytes, b: &KeyBytes) -> (r: bool)
    ensures
        r == (a@ == b@),
{
    let mut i: usize = 0;
    while i < 32
        invariant
            i <= 32,
            forall|j: int| 0 <= j < i ==> a@[j] == b@[j],
        decreases 32 - i,
    {
        if a[i] != b[i] {
            return false;
        }
        i = i + 1;
    }
    proof {
        assert(a@ =~= b@);
    }
    true
}

/// Builds the bytes of the `"user"` namespace tag.
fn ns_user_vec() -> (v: Vec<u8>)
    ensures
        v@ == ns_user(),
{
    let mut v: Vec<u8> = Vec::new();
    v.push(117u8);
    v.push(115u8);
    v.push(101u8);
    v.push(114u8);
    proof {
        assert(v@ =~= ns_user());
    }
    v
}

/// Builds the bytes of the `"track"` namespace tag.
fn ns_track_vec() -> (v: Vec<u8>)
    ensures
        v@ == ns_track(),
{
    let mut v: Vec<u8> = Vec::new();
    v.push(116u8);
    v.push(114u8);
    v.push(97u8);
    v.push(99u8);
    v.push(107u8);
    proof {
        assert(v@ =~= ns_track());
    }
    v
}

/// Builds the bytes of the `"playlist"` namespace tag.
fn ns_playlist_vec() -> (v: Vec<u8>)
    ensures
        v@ == ns_playlist(),
{
    let mut v: Vec<u8> = Vec::new();
    v.push(112u8);
    v.push(108u8);
    v.push(97u8);
    v.push(121u8);
    v.push(108u8);
    v.push(105u8);
    v.push(115u8);
    v.push(116u8);
    proof {
        assert(v@ =~= ns_playlist());
    }
    v
}

/// Builds the bytes of the `"playlist_item"` namespace tag.
fn ns_item_vec() -> (v: Vec<u8>)
    ensures
        v@ == ns_item(),
{
    let mut v = ns_playlist_vec();
    v.push(95u8);
    v.push(105u8);
    v.push(116u8);
    v.push(101u8);
    v.push(109u8);
    proof {
        assert(v@ =~= ns_item());
    }
    v
}

/// Builds the bytes of the `"like"` namespace tag.
fn ns_like_vec() -> (v: Vec<u8>)
    ensures
        v@ == ns_like(),
{
    let mut v: Vec<u8> = Vec::new();
    v.push(108u8);
    v.push(105u8);
    v.push(107u8);
    v.push(101u8);
    proof {
        assert(v@ =~= ns_like());
    }
    v
}

/// Builds the seed list of a profile address.
pub(crate) fn user_seeds_vec(authority: &KeyBytes) -> (v: Vec<Vec<u8>>)
    ensures
        v.deep_view() == user_seeds(authority@),
{
    let mut v: Vec<Vec<u8>> = Vec::new();
    v.push(ns_user_vec());
    v.push(key_to_vec(authority));
    proof {
        assert(v.deep_view() =~~= user_seeds(authority@));
    }
    v
}

/// Builds the seed list of a track address.
pub(crate) fn track_seeds_vec(owner: &KeyBytes, index: u64) -> (v: Vec<Vec<u8>>)
    ensures
        v.deep_view() == track_seeds(owner@, index),
{
    let mut v: Vec<Vec<u8>> = Vec::new();
    v.push(ns_track_vec());
    v.push(key_to_vec(owner));
    v.push(u64_to_le_bytes(index));
    proof {
        assert(v.deep_view() =~~= track_seeds(owner@, index));
    }
    v
}

/// Builds the seed list of a playlist address.
pub(crate) fn playlist_seeds_vec(owner: &KeyBytes, name: &Vec<u8>) -> (v: Vec<Vec<u8>>)
    ensures
        v.deep_view() == playlist_seeds(owner@, name@),
{
    let mut v: Vec<Vec<u8>> = Vec::new();
    v.push(ns_playlist_vec());
    v.push(key_to_vec(owner));
    v.push(copy_bytes(name));
    proof {
        assert(v.deep_view() =~~= playlist_seeds(owner@, name@));
    }
    v
}

/// Builds the seed list of a playlist-entry address.
pub(crate) fn item_seeds_vec(playlist: &KeyBytes, idx: u64) -> (v: Vec<Vec<u8>>)
    ensures
        v.deep_view() == item_seeds(playlist@, idx),
{
    let mut v: Vec<Vec<u8>> = Vec::new();
    v.push(ns_item_vec());
    v.push(key_to_vec(playlist));
    v.push(u64_to_le_bytes(idx));
    proof {
        assert(v.deep_view() =~~= item_seeds(playlist@, idx));
    }
    v
}

/// Builds the seed list of a like address.
pub(crate) fn like_seeds_vec(track: &KeyBytes, liker: &KeyBytes) -> (v: Vec<Vec<u8>>)
    ensures
        v.deep_view() == like_seeds(track@, liker@),
{
    let mut v: Vec<Vec<u8>> = Vec::new();
    v.push(ns_like_vec());
    v.push(key_to_vec(track));
    v.push(key_to_vec(liker));
    proof {
        assert(v.deep_view() =~~= like_seeds(track@, liker@));
    }
    v
}

/// Copies a byte vector.
pub(crate) fn copy_bytes(b: &Vec<u8>) -> (v: Vec<u8>)
    ensures
        v@ == b@,
{
    let mut v: Vec<u8> = Vec::new();
    let mut i: usize = 0;
    while i < b.len()
        invariant
            i <= b@.len(),
            v@ == b@.subrange(0, i as int),
        decreases b@.len() - i,
    {
        v.push(b[i]);
        i = i + 1;
    }
    proof {
        assert(v@ =~= b@);
    }
    v
}

/// The canonical derivation for a profile address.
pub fn derive_user_profile(authority: &KeyBytes) -> (r: Option<(KeyBytes, u8)>)
    ensures
        (match r {
            Some((addr, bump)) => {
                &&& pda_canonical(user_seeds(authority@), PROGRAM_ID@) == Some((addr@, bump))
                &&& pda_checked(user_seeds(authority@).push(seq![bump]), PROGRAM_ID@) == Some(
                    addr@,
                )
            },
            None => pda_canonical(user_seeds(authority@), PROGRAM_ID@) is None,
        }),
{
    let seeds = user_seeds_vec(authority);
    find_program_address(&seeds, &PROGRAM_ID)
}

/// The canonical derivation for a track address.
pub fn derive_track(owner: &KeyBytes, index: u64) -> (r: Option<(KeyBytes, u8)>)
    ensures
        (match r {
            Some((addr, bump)) => {
                &&& pda_canonical(track_seeds(owner@, index), PROGRAM_ID@) == Some((addr@, bump))
                &&& pda_checked(track_seeds(owner@, index).push(seq![bump]), PROGRAM_ID@) == Some(
                    addr@,
                )
            },
            None => pda_canonical(track_seeds(owner@, index), PROGRAM_ID@) is None,
        }),
{
    let seeds = track_seeds_vec(owner, index);
    find_program_address(&seeds, &PROGRAM_ID)
}

/// The canonical derivation for a playlist address.
pub fn derive_playlist(owner: &KeyBytes, name: &Vec<u8>) -> (r: Option<(KeyBytes, u8)>)
    ensures
        (match r {
            Some((addr, bump)) => {
                &&& pda_canonical(playlist_seeds(owner@, name@), PROGRAM_ID@) == Some((
                    addr@,
                    bump,
                ))
                &&& pda_checked(playlist_seeds(owner@, name@).push(seq![bump]), PROGRAM_ID@)
                    == Some(addr@)
            },
            None => pda_canonical(playlist_seeds(owner@, name@), PROGRAM_ID@) is None,
        }),
{
    let seeds = playlist_seeds_vec(owner, name);
    find_program_address(&seeds, &PROGRAM_ID)
}

/// The canonical derivation for a playlist-entry address.
pub fn derive_playlist_item(playlist: &KeyBytes, idx: u64) -> (r: Option<(KeyBytes, u8)>)
    ensures
        (match r {
            Some((addr, bump)) => {
                &&& pda_canonical(item_seeds(playlist@, idx), PROGRAM_ID@) == Some((addr@, bump))
                &&& pda_checked(item_seeds(playlist@, idx).push(seq![bump]), PROGRAM_ID@) == Some(
                    addr@,
                )
            },
            None => pda_canonical(item_seeds(playlist@, idx), PROGRAM_ID@) is None,
        }),
{
    let seeds = item_seeds_vec(playlist, idx);
    find_program_address(&seeds, &PROGRAM_ID)
}

/// The canonical derivation for a like address.
pub fn derive_like(track: &KeyBytes, liker: &KeyBytes) -> (r: Option<(KeyBytes, u8)>)
    ensures
        (match r {
            Some((addr, bump)) => {
                &&& pda_canonical(like_seeds(track@, liker@), PROGRAM_ID@) == Some((addr@, bump))
                &&& pda_checked(like_seeds(track@, liker@).push(seq![bump]), PROGRAM_ID@) == Some(
                    addr@,
                )
            },
            None => pda_canonical(like_seeds(track@, liker@), PROGRAM_ID@) is None,
        }),
{
    let seeds = like_seeds_vec(track, liker);
    find_program_address(&seeds, &PROGRAM_ID)
}

/// Recomputes an address from a seed list extended by a stored
/// disambiguator, for the fail-closed verification of a supplied record.
pub(crate) fn check_address(seeds: Vec<Vec<u8>>, bump: u8) -> (r: Option<KeyBytes>)
    ensures
        (match r {
            Some(addr) => pda_checked(seeds.deep_view().push(seq![bump]), PROGRAM_ID@) == Some(
                addr@,
            ),
            None => pda_checked(seeds.deep_view().push(seq![bump]), PROGRAM_ID@) is None,
        }),
{
    let ghost orig: Seq<Seq<u8>> = seeds.deep_view();
    let mut seeds = seeds;
    let mut bump_vec: Vec<u8> = Vec::new();
    bump_vec.push(bump);
    proof {
        assert(bump_vec@ =~= seq![bump]);
    }
    seeds.push(bump_vec);
    proof {
        assert(seeds.deep_view() =~~= orig.push(seq![bump]));
    }
    create_program_address(&seeds, &PROGRAM_ID)
}

} // verus!
