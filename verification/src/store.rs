//! The participant store: the durable mapping from identity to record. It
//! enforces uniqueness and field validity at write time, and a `put` either
//! writes the whole record or nothing.

use vstd::prelude::*;

use crate::types::{address_eq, valid_name, Address, Error, Participant, ParticipantView};

verus! {

/// The mapping a sequence of records stands for, keyed by each record's
/// address.
spec fn store_map(s: Seq<Participant>) -> Map<Seq<u8>, ParticipantView>
    decreases s.len(),
{
    if s.len() == 0 {
        Map::empty()
    } else {
        store_map(s.drop_last()).insert(s.last()@.address, s.last()@)
    }
}

/// A key is in the mapping exactly when some record carries it as address.
proof fn lemma_store_map_domain(s: Seq<Participant>, k: Seq<u8>)
    ensures
        store_map(s).contains_key(k) <==> exists|i: int| 0 <= i < s.len() && s[i]@.address == k,
    decreases s.len(),
{
    if s.len() > 0 {
        lemma_store_map_domain(s.drop_last(), k);
        if s.last()@.address == k {
            assert(s[s.len() - 1]@.address == k);
        } else if store_map(s).contains_key(k) {
            let i = choose|i: int| 0 <= i < s.drop_last().len() && s.drop_last()[i]@.address == k;
            assert(s[i]@.address == k);
        } else if exists|i: int| 0 <= i < s.len() && s[i]@.address == k {
            let i = choose|i: int| 0 <= i < s.len() && s[i]@.address == k;
            assert(s.drop_last()[i]@.address == k);
        }
    }
}

/// With pairwise-distinct addresses, the mapping sends each record's address
/// to that record's value.
proof fn lemma_store_map_at(s: Seq<Participant>, i: int)
    requires
        0 <= i < s.len(),
        forall|p: int, q: int| 0 <= p < q < s.len() ==> s[p]@.address != s[q]@.address,
    ensures
        store_map(s).contains_key(s[i]@.address),
        store_map(s)[s[i]@.address] == s[i]@,
    decreases s.len(),
{
    if i == s.len() - 1 {
        assert(s.last() == s[i]);
    } else {
        lemma_store_map_at(s.drop_last(), i);
        assert(s.drop_last()[i] == s[i]);
        assert(s.last()@.address != s[i]@.address);
    }
}

/// Owns every participant record; no other component mutates stored state.
pub struct ParticipantStore {
    entries: Vec<Participant>,
}

/// The outcome `put` owes for a given prior state and record.
pub open spec fn put_result(m: Map<Seq<u8>, ParticipantView>, record: ParticipantView) -> Result<
    (),
    Error,
> {
    if !valid_name(record.name) {
        Err(Error::InvalidName)
    } else if m.contains_key(record.address) {
        Err(Error::DuplicateParticipant)
    } else {
        Ok(())
    }
}

impl View for ParticipantStore {
    type V = Map<Seq<u8>, ParticipantView>;

    closed spec fn view(&self) -> Map<Seq<u8>, ParticipantView> {
        store_map(self.entries@)
    }
}

impl ParticipantStore {
    /// Internal invariant: addresses are pairwise distinct and every stored
    /// record carries a valid name.
    pub closed spec fn wf(&self) -> bool {
        &&& forall|p: int, q: int|
            0 <= p < q < self.entries@.len() ==> self.entries@[p]@.address
                != self.entries@[q]@.address
        &&& forall|i: int| 0 <= i < self.entries@.len() ==> valid_name(#[trigger] self.entries@[i]@.name)
    }

    /// An empty store.
    pub fn new() -> (s: ParticipantStore)
        ensures
            s.wf(),
            s@ == Map::<Seq<u8>, ParticipantView>::empty(),
    {
        ParticipantStore { entries: Vec::new() }
    }

    /// Pure existence check: whether an address has a stored record.
    pub fn contains(&self, address: &Address) -> (r: bool)
        ensures
            r == self@.contains_key(address@),
    {
        let mut i: usize = 0;
        while i < self.entries.len()
            invariant
                i <= self.entries@.len(),
                forall|k: int| 0 <= k < i ==> self.entries@[k]@.address != address@,
            decreases self.entries@.len() - i,
        {
            if address_eq(&self.entries[i].address, address) {
                proof {
                    lemma_store_map_domain(self.entries@, address@);
                }
                return true;
            }
            i = i + 1;
        }
        proof {
            lemma_store_map_domain(self.entries@, address@);
        }
        false
    }

    /// Returns the record stored under an address, or `NotFound`.
    pub fn get(&self, address: &Address) -> (r: Result<&Participant, Error>)
        requires
            self.wf(),
        ensures
            match r {
                Ok(p) => self@.contains_key(address@) && p@ == self@[address@],
                Err(e) => e == Error::NotFound && !self@.contains_key(address@),
            },
    {
        let mut i: usize = 0;
        while i < self.entries.len()
            invariant
                self.wf(),
                i <= self.entries@.len(),
                forall|k: int| 0 <= k < i ==> self.entries@[k]@.address != address@,
            decreases self.entries@.len() - i,
        {
            if address_eq(&self.entries[i].address, address) {
                proof {
                    lemma_store_map_at(self.entries@, i as int);
                }
                return Ok(&self.entries[i]);
            }
            i = i + 1;
        }
        proof {
            lemma_store_map_domain(self.entries@, address@);
        }
        Err(Error::NotFound)
    }

    /// Inserts a record keyed by its address. Fails with
    /// `DuplicateParticipant` if the key already exists and with
    /// `InvalidName` if the record's name breaks the host bound; either the
    /// whole record is written or nothing is.
    pub fn put(&mut self, address: &Address, record: Participant) -> (r: Result<(), Error>)
        requires
            old(self).wf(),
            record@.address == address@,
        ensures
            final(self).wf(),
            r == put_result(old(self)@, record@),
            r is Ok ==> final(self)@ == old(self)@.insert(record@.address, record@),
            r is Err ==> final(self)@ == old(self)@,
    {
        if record.name.len() == 0 || record.name.len() > crate::types::MAX_NAME_LEN {
            return Err(Error::InvalidName);
        }
        if self.contains(address) {
            return Err(Error::DuplicateParticipant);
        }
        proof {
            lemma_store_map_domain(self.entries@, record@.address);
        }
        let ghost prior = self.entries@;
        self.entries.push(record);
        proof {
            assert(self.entries@.drop_last() =~= prior);
            assert(forall|k: int| 0 <= k < prior.len() ==> prior[k] == #[trigger] self.entries@[k]);
            assert(forall|k: int|
                0 <= k < prior.len() ==> (#[trigger] self.entries@[k])@.address
                    != self.entries@[prior.len() as int]@.address);
        }
        Ok(())
    }

    /// How many records the store holds.
    pub fn len(&self) -> (n: usize)
        requires
            self.wf(),
        ensures
            n == self@.len(),
    {
        proof {
            lemma_store_map_len(self.entries@);
        }
        self.entries.len()
    }
}

/// With pairwise-distinct addresses the mapping has one entry per record.
proof fn lemma_store_map_len(s: Seq<Participant>)
    requires
        forall|p: int, q: int| 0 <= p < q < s.len() ==> s[p]@.address != s[q]@.address,
    ensures
        store_map(s).dom().finite(),
        store_map(s).len() == s.len(),
    decreases s.len(),
{
    if s.len() > 0 {
        lemma_store_map_len(s.drop_last());
        lemma_store_map_domain(s.drop_last(), s.last()@.address);
        assert(!store_map(s.drop_last()).contains_key(s.last()@.address));
    }
}

} // verus!
