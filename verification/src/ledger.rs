//! The ledger store: append-only keyed storage whose only write is an
//! atomic create-if-absent. Its refusal to put a second record at an
//! occupied address is what the operations lean on for uniqueness.

use vstd::prelude::*;

use crate::errors::OpError;
use crate::records::{Record, RecordV};

verus! {

/// What reading an address from a ledger's map yields.
pub open spec fn read_of(m: Map<Seq<u8>, RecordV>, address: Seq<u8>) -> Option<RecordV> {
    if m.contains_key(address) {
        Some(m[address])
    } else {
        None
    }
}

/// The map a list of entries denotes.
spec fn entries_map(s: Seq<(Vec<u8>, Record)>) -> Map<Seq<u8>, RecordV>
    decreases s.len(),
{
    if s.len() == 0 {
        Map::empty()
    } else {
        entries_map(s.drop_last()).insert(s.last().0@, s.last().1@)
    }
}

/// A key occurs in the map exactly when some entry carries it.
proof fn lemma_entries_map_key(s: Seq<(Vec<u8>, Record)>, k: Seq<u8>)
    ensures
        entries_map(s).contains_key(k) <==> exists|i: int|
            0 <= i < s.len() && (#[trigger] s[i]).0@ == k,
    decreases s.len(),
{
    if s.len() > 0 {
        lemma_entries_map_key(s.drop_last(), k);
        if s.last().0@ == k {
            assert(s[s.len() - 1].0@ == k);
        } else {
            if entries_map(s).contains_key(k) {
                let i = choose|i: int|
                    0 <= i < s.drop_last().len() && (#[trigger] s.drop_last()[i]).0@ == k;
                assert(s[i].0@ == k);
            }
            if exists|i: int| 0 <= i < s.len() && (#[trigger] s[i]).0@ == k {
                let i = choose|i: int| 0 <= i < s.len() && (#[trigger] s[i]).0@ == k;
                assert(s.drop_last()[i].0@ == k);
            }
        }
    }
}

/// With pairwise distinct keys, the map sends each entry's key to that
/// entry's record.
proof fn lemma_entries_map_at(s: Seq<(Vec<u8>, Record)>, i: int)
    requires
        0 <= i < s.len(),
        forall|a: int, b: int|
            0 <= a < b < s.len() ==> (#[trigger] s[a]).0@ != (#[trigger] s[b]).0@,
    ensures
        entries_map(s).contains_key(s[i].0@),
        entries_map(s)[s[i].0@] == s[i].1@,
    decreases s.len(),
{
    if i < s.len() - 1 {
        assert forall|a: int, b: int|
            0 <= a < b < s.drop_last().len() implies (#[trigger] s.drop_last()[a]).0@
            != (#[trigger] s.drop_last()[b]).0@ by {
            assert(s.drop_last()[a] == s[a]);
            assert(s.drop_last()[b] == s[b]);
        }
        lemma_entries_map_at(s.drop_last(), i);
        assert(s.drop_last()[i] == s[i]);
        assert(s[i].0@ != s[s.len() - 1].0@);
    }
}

/// Byte-for-byte equality of two buffers.
fn bytes_eq(a: &Vec<u8>, b: &Vec<u8>) -> (r: bool)
    ensures
        r == (a@ == b@),
{
    if a.len() != b.len() {
        return false;
    }
    let mut i: usize = 0;
    while i < a.len()
        invariant
            i <= a@.len(),
            a@.len() == b@.len(),
            forall|j: int| 0 <= j < i ==> a@[j] == b@[j],
        decreases a@.len() - i,
    {
        if a[i] != b[i] {
            return false;
        }
        i = i + 1;
    }
    proof {
        assert(a@ =~= b@);
    }
    true
}

/// An append-only store keyed by derived addresses. Well-formedness keeps
/// the keys pairwise distinct, so the denoted map loses nothing.
pub struct Ledger {
    entries: Vec<(Vec<u8>, Record)>,
}

impl View for Ledger {
    type V = Map<Seq<u8>, RecordV>;

    closed spec fn view(&self) -> Map<Seq<u8>, RecordV> {
        entries_map(self.entries@)
    }
}

impl Ledger {
    /// Keys are pairwise distinct.
    pub closed spec fn wf(&self) -> bool {
        forall|a: int, b: int|
            0 <= a < b < self.entries@.len() ==> (#[trigger] self.entries@[a]).0@
                != (#[trigger] self.entries@[b]).0@
    }

    /// A fresh, empty ledger.
    pub fn new() -> (r: Ledger)
        ensures
            r.wf(),
            r@ == Map::<Seq<u8>, RecordV>::empty(),
    {
        Ledger { entries: Vec::new() }
    }

    /// Index of the entry at `address`, if one exists.
    fn find(&self, address: &Vec<u8>) -> (r: Option<usize>)
        ensures
            match r {
                Some(i) => i < self.entries@.len() && self.entries@[i as int].0@ == address@,
                None => forall|i: int|
                    0 <= i < self.entries@.len() ==> (#[trigger] self.entries@[i]).0@ != address@,
            },
    {
        let mut i: usize = 0;
        while i < self.entries.len()
            invariant
                i <= self.entries@.len(),
                forall|j: int|
                    0 <= j < i ==> (#[trigger] self.entries@[j]).0@ != address@,
            decreases self.entries@.len() - i,
        {
            if bytes_eq(&self.entries[i].0, address) {
                return Some(i);
            }
            i = i + 1;
        }
        None
    }

    /// Read the record at an address, if any.
    pub fn read_record(&self, address: &Vec<u8>) -> (r: Option<&Record>)
        requires
            self.wf(),
        ensures
            match r {
                Some(rec) => read_of(self@, address@) == Some(rec@),
                None => read_of(self@, address@) is None,
            },
    {
        match self.find(address) {
            Some(i) => {
                proof {
                    lemma_entries_map_at(self.entries@, i as int);
                }
                Some(&self.entries[i].1)
            },
            None => {
                proof {
                    lemma_entries_map_key(self.entries@, address@);
                }
                None
            },
        }
    }

    /// Create a record at an address; refuse if one already stands there.
    /// This refusal, atomic with the write, is the store's whole uniqueness
    /// mechanism: no partial state survives a failure.
    pub fn create_record(&mut self, address: Vec<u8>, record: Record) -> (r: Result<(), OpError>)
        requires
            old(self).wf(),
        ensures
            final(self).wf(),
            match r {
                Ok(_) => !old(self)@.contains_key(address@) && final(self)@ == old(self)@.insert(
                    address@,
                    record@,
                ),
                Err(e) => e == OpError::AlreadyExists && old(self)@.contains_key(address@)
                    && final(self)@ == old(self)@,
            },
    {
        match self.find(&address) {
            Some(i) => {
                proof {
                    lemma_entries_map_at(self.entries@, i as int);
                }
                Err(OpError::AlreadyExists)
            },
            None => {
                proof {
                    lemma_entries_map_key(self.entries@, address@);
                }
                let ghost before = self.entries@;
                self.entries.push((address, record));
                proof {
                    assert(self.entries@.drop_last() =~= before);
                    assert forall|a: int, b: int|
                        0 <= a < b < self.entries@.len() implies (#[trigger] self.entries@[a]).0@
                        != (#[trigger] self.entries@[b]).0@ by {
                        assert(self.entries@[a] == before[a]);
                        if b < self.entries@.len() - 1 {
                            assert(self.entries@[b] == before[b]);
                        }
                    }
                }
                Ok(())
            },
        }
    }
}

} // verus!
