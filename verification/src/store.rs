//! The record store: the host's transactional storage, modelled as a map
//! from addresses to records.
//!
//! Creation is the only absent-to-present transition, and it fails when
//! the target address already holds a record — that refusal is the sole
//! mechanism that keeps two racing creations from claiming one address.

use vstd::prelude::*;
use crate::errors::SolifyError;
use crate::records::KeyBytes;
use crate::records::Record;
use crate::records::RecordV;
use crate::pda::key_eq;
use crate::integrity::wf_map;

verus! {

/// The map denoted by a list of (address, record) entries, later entries
/// winning (the store keeps addresses distinct, so none ever repeats).
pub closed spec fn entries_map(s: Seq<(KeyBytes, Record)>) -> Map<Seq<u8>, RecordV>
    decreases s.len(),
{
    if s.len() == 0 {
        Map::empty()
    } else {
        entries_map(s.drop_last()).insert(s.last().0@, s.last().1@)
    }
}

/// No two entries share an address.
pub closed spec fn addrs_distinct(s: Seq<(KeyBytes, Record)>) -> bool {
    forall|i: int, j: int| 0 <= i < j < s.len() ==> s[i].0@ != s[j].0@
}

proof fn lemma_entries_map_contains(s: Seq<(KeyBytes, Record)>, a: Seq<u8>)
    ensures
        entries_map(s).contains_key(a) <==> exists|i: int| 0 <= i < s.len() && s[i].0@ == a,
    decreases s.len(),
{
    if s.len() > 0 {
        lemma_entries_map_contains(s.drop_last(), a);
        if s.last().0@ == a {
            assert(s[s.len() - 1].0@ == a);
        } else if entries_map(s).contains_key(a) {
            let i = choose|i: int| 0 <= i < s.drop_last().len() && s.drop_last()[i].0@ == a;
            assert(s[i].0@ == a);
        } else {
            assert(forall|i: int| 0 <= i < s.len() - 1 ==> s.drop_last()[i].0@ == s[i].0@);
        }
    }
}

proof fn lemma_entries_map_index(s: Seq<(KeyBytes, Record)>, i: int)
    requires
        addrs_distinct(s),
        0 <= i < s.len(),
    ensures
        entries_map(s).contains_key(s[i].0@),
        entries_map(s)[s[i].0@] == s[i].1@,
    decreases s.len(),
{
    if i == s.len() - 1 {
        assert(s[i] == s.last());
    } else {
        assert(addrs_distinct(s.drop_last()));
        lemma_entries_map_index(s.drop_last(), i);
        assert(s.drop_last()[i] == s[i]);
        assert(s.last().0@ != s[i].0@);
    }
}

proof fn lemma_entries_map_push(s: Seq<(KeyBytes, Record)>, p: (KeyBytes, Record))
    ensures
        entries_map(s.push(p)) == entries_map(s).insert(p.0@, p.1@),
{
    assert(s.push(p).drop_last() =~= s);
    assert(s.push(p).last() == p);
}

proof fn lemma_entries_map_update(s: Seq<(KeyBytes, Record)>, i: int, r: Record)
    requires
        addrs_distinct(s),
        0 <= i < s.len(),
    ensures
        entries_map(s.update(i, (s[i].0, r))) == entries_map(s).insert(s[i].0@, r@),
    decreases s.len(),
{
    let u = s.update(i, (s[i].0, r));
    if i == s.len() - 1 {
        assert(u.drop_last() =~= s.drop_last());
        assert(u.last() == (s[i].0, r));
        assert(entries_map(u) =~= entries_map(s).insert(s[i].0@, r@));
    } else {
        assert(addrs_distinct(s.drop_last()));
        assert(u.drop_last() =~= s.drop_last().update(i, (s[i].0, r)));
        assert(s.drop_last()[i] == s[i]);
        lemma_entries_map_update(s.drop_last(), i, r);
        assert(u.last() == s.last());
        assert(s.last().0@ != s[i].0@);
        assert(entries_map(u) =~= entries_map(s).insert(s[i].0@, r@));
    }
}

/// The record store. Its abstract value is a map from addresses to the
/// views of the records living there.
pub struct Store {
    entries: Vec<(KeyBytes, Record)>,
}

impl View for Store {
    type V = Map<Seq<u8>, RecordV>;

    closed spec fn view(&self) -> Map<Seq<u8>, RecordV> {
        entries_map(self.entries@)
    }
}

impl Store {
    /// Structural validity: no two entries share an address. Established
    /// by [`Store::new`] and preserved by every operation.
    pub closed spec fn valid(&self) -> bool {
        addrs_distinct(self.entries@)
    }

    /// An empty store: well formed from the start.
    pub fn new() -> (s: Store)
        ensures
            s@ == Map::<Seq<u8>, RecordV>::empty(),
            s.valid(),
            wf_map(s@),
    {
        Store { entries: Vec::new() }
    }

    /// Index of the entry at `addr`, if one exists.
    fn find_index(&self, addr: &KeyBytes) -> (r: Option<usize>)
        requires
            self.valid(),
        ensures
            (match r {
                Some(i) => {
                    &&& i < self.entries@.len()
                    &&& self.entries@[i as int].0@ == addr@
                    &&& self@.contains_key(addr@)
                    &&& self@[addr@] == self.entries@[i as int].1@
                },
                None => !self@.contains_key(addr@),
            }),
    {
        let n = self.entries.len();
        let mut i: usize = 0;
        while i < n
            invariant
                n == self.entries@.len(),
                i <= n,
                addrs_distinct(self.entries@),
                forall|j: int| 0 <= j < i ==> self.entries@[j].0@ != addr@,
            decreases n - i,
        {
            if key_eq(&self.entries[i].0, addr) {
                proof {
                    lemma_entries_map_index(self.entries@, i as int);
                }
                return Some(i);
            }
            i = i + 1;
        }
        proof {
            lemma_entries_map_contains(self.entries@, addr@);
        }
        None
    }

    /// Whether a record lives at `addr`.
    pub fn contains(&self, addr: &KeyBytes) -> (r: bool)
        requires
            self.valid(),
        ensures
            r == self@.contains_key(addr@),
    {
        self.find_index(addr).is_some()
    }

    /// The record at `addr`, or nothing.
    pub fn read(&self, addr: &KeyBytes) -> (r: Option<&Record>)
        requires
            self.valid(),
        ensures
            (match r {
                Some(rec) => self@.contains_key(addr@) && rec@ == self@[addr@],
                None => !self@.contains_key(addr@),
            }),
    {
        match self.find_index(addr) {
            Some(i) => Some(&self.entries[i].1),
            None => None,
        }
    }

    /// Creates a record at `addr`: the absent-to-present transition. It
    /// refuses to overwrite — an occupied address fails with
    /// `DuplicateCreation` and changes nothing.
    pub fn create(&mut self, addr: KeyBytes, rec: Record) -> (r: Result<(), SolifyError>)
        requires
            old(self).valid(),
        ensures
            final(self).valid(),
            old(self)@.contains_key(addr@) ==> r == Err::<(), SolifyError>(
                SolifyError::DuplicateCreation,
            ) && final(self)@ == old(self)@,
            !old(self)@.contains_key(addr@) ==> r == Ok::<(), SolifyError>(()) && final(self)@
                == old(self)@.insert(addr@, rec@),
    {
        match self.find_index(&addr) {
            Some(_) => Err(SolifyError::DuplicateCreation),
            None => {
                proof {
                    lemma_entries_map_contains(self.entries@, addr@);
                    lemma_entries_map_push(self.entries@, (addr, rec));
                    assert(addrs_distinct(self.entries@.push((addr, rec)))) by {
                        let u = self.entries@.push((addr, rec));
                        assert forall|i: int, j: int| 0 <= i < j < u.len() implies u[i].0@
                            != u[j].0@ by {
                            if j < u.len() - 1 {
                                assert(u[i] == self.entries@[i]);
                                assert(u[j] == self.entries@[j]);
                            } else {
                                assert(u[i] == self.entries@[i]);
                            }
                        }
                    }
                }
                self.entries.push((addr, rec));
                Ok(())
            },
        }
    }

    /// Overwrites the record at `addr`: a present-to-present field
    /// update. It fails when no record lives there, changing nothing.
    pub fn write(&mut self, addr: &KeyBytes, rec: Record) -> (r: bool)
        requires
            old(self).valid(),
        ensures
            final(self).valid(),
            old(self)@.contains_key(addr@) ==> r && final(self)@ == old(self)@.insert(
                addr@,
                rec@,
            ),
            !old(self)@.contains_key(addr@) ==> !r && final(self)@ == old(self)@,
    {
        match self.find_index(addr) {
            Some(i) => {
                self.set_at(i, rec);
                true
            },
            None => false,
        }
    }

    /// Replaces the record at entry `i`, keeping its address.
    fn set_at(&mut self, i: usize, rec: Record)
        requires
            old(self).valid(),
            i < old(self).entries@.len(),
        ensures
            final(self).valid(),
            final(self)@ == old(self)@.insert(old(self).entries@[i as int].0@, rec@),
            final(self).entries@ == old(self).entries@.update(
                i as int,
                (old(self).entries@[i as int].0, rec),
            ),
    {
        proof {
            lemma_entries_map_update(self.entries@, i as int, rec);
            assert(addrs_distinct(
                self.entries@.update(i as int, (self.entries@[i as int].0, rec)),
            )) by {
                let u = self.entries@.update(i as int, (self.entries@[i as int].0, rec));
                assert(forall|k: int| 0 <= k < u.len() ==> u[k].0@ == self.entries@[k].0@);
            }
        }
        let addr = self.entries[i].0;
        self.entries[i] = (addr, rec);
    }
}

} // verus!
