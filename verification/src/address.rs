//! Addresses and address-keyed tables.
//!
//! An address is held as the bytes of its textual (strkey) form; two addresses
//! are the same when their bytes are.  `AddressMap` is the per-address table
//! that the modules keep for limits, rates, prices and balances.

use vstd::prelude::*;

verus! {

/// An account or contract address, held as the bytes of its strkey text.
#[derive(Debug)]
pub struct Address {
    bytes: Vec<u8>,
}

impl View for Address {
    type V = Seq<u8>;

    closed spec fn view(&self) -> Seq<u8> {
        self.bytes@
    }
}

/// Copies a byte vector element by element.
pub fn copy_bytes(src: &Vec<u8>) -> (out: Vec<u8>)
    ensures
        out@ == src@,
{
    let mut out: Vec<u8> = Vec::new();
    let mut i: usize = 0;
    while i < src.len()
        invariant
            i <= src.len(),
            out@ == src@.subrange(0, i as int),
        decreases src.len() - i,
    {
        out.push(src[i]);
        i = i + 1;
    }
    assert(out@ =~= src@);
    out
}

/// Compares two byte vectors element by element.
pub fn bytes_equal(a: &Vec<u8>, b: &Vec<u8>) -> (r: bool)
    ensures
        r == (a@ == b@),
{
    if a.len() != b.len() {
        return false;
    }
    let mut i: usize = 0;
    while i < a.len()
        invariant
            i <= a.len(),
            a.len() == b.len(),
            forall|j: int| 0 <= j < i ==> a@[j] == b@[j],
        decreases a.len() - i,
    {
        if a[i] != b[i] {
            return false;
        }
        i = i + 1;
    }
    assert(a@ =~= b@);
    true
}

impl Address {
    /// Builds an address from the bytes of its strkey text.
    pub fn from_bytes(bytes: Vec<u8>) -> (r: Address)
        ensures
            r@ == bytes@,
    {
        Address { bytes }
    }

    /// The bytes of the address's strkey text.
    pub fn to_bytes(&self) -> (r: Vec<u8>)
        ensures
            r@ == self@,
    {
        copy_bytes(&self.bytes)
    }

    /// Whether two addresses are the same address.
    pub fn same_as(&self, other: &Address) -> (r: bool)
        ensures
            r == (self@ == other@),
    {
        bytes_equal(&self.bytes, &other.bytes)
    }

    /// A copy of the address.
    pub fn duplicate(&self) -> (r: Address)
        ensures
            r@ == self@,
    {
        Address { bytes: copy_bytes(&self.bytes) }
    }
}

/// The byte view of an optional address.
pub open spec fn opt_view(a: Option<Address>) -> Option<Seq<u8>> {
    match a {
        Some(x) => Some(x@),
        None => None,
    }
}

/// A table from addresses to values: a list of entries whose keys are
/// pairwise distinct.
pub struct AddressMap<V> {
    entries: Vec<(Address, V)>,
}

/// The keys of the entries are pairwise distinct.
pub open spec fn distinct_keys<V>(entries: Seq<(Address, V)>) -> bool {
    forall|i: int, j: int|
        0 <= i < entries.len() && 0 <= j < entries.len() && i != j ==> #[trigger] entries[i].0@ != #[trigger] entries[j].0@
}

/// The table that a list of entries describes: each key maps to the value
/// of an entry with that key.
pub open spec fn entries_map<V>(entries: Seq<(Address, V)>) -> Map<Seq<u8>, V> {
    Map::new(
        |k: Seq<u8>| exists|i: int| 0 <= i < entries.len() && #[trigger] entries[i].0@ == k,
        |k: Seq<u8>| entries[choose|i: int| 0 <= i < entries.len() && #[trigger] entries[i].0@ == k].1,
    )
}

/// With distinct keys, each entry's key maps to that entry's value.
pub proof fn lemma_entries_map_value<V>(entries: Seq<(Address, V)>, i: int)
    requires
        distinct_keys(entries),
        0 <= i < entries.len(),
    ensures
        entries_map(entries).contains_key(entries[i].0@),
        entries_map(entries)[entries[i].0@] == entries[i].1,
{
    let k = entries[i].0@;
    assert(entries[i].0@ == k);
    let c = choose|j: int| 0 <= j < entries.len() && #[trigger] entries[j].0@ == k;
    assert(0 <= c < entries.len() && entries[c].0@ == k);
    assert(c == i);
}

/// Whether two entries of the list have the same key.
pub fn has_duplicate_key<V>(entries: &Vec<(Address, V)>) -> (r: bool)
    ensures
        r == !distinct_keys(entries@),
{
    let n = entries.len();
    let mut i: usize = 0;
    while i < n
        invariant
            n == entries@.len(),
            i <= n,
            forall|a: int, b: int| 0 <= a < i && a < b < n ==> #[trigger] entries@[a].0@ != #[trigger] entries@[b].0@,
        decreases n - i,
    {
        let mut j: usize = i + 1;
        while j < n
            invariant
                n == entries@.len(),
                i < n,
                i + 1 <= j <= n,
                forall|a: int, b: int| 0 <= a < i && a < b < n ==> #[trigger] entries@[a].0@ != #[trigger] entries@[b].0@,
                forall|b: int| i < b < j ==> entries@[i as int].0@ != #[trigger] entries@[b].0@,
            decreases n - j,
        {
            if entries[i].0.same_as(&entries[j].0) {
                return true;
            }
            j = j + 1;
        }
        i = i + 1;
    }
    assert forall|a: int, b: int| 0 <= a < n && 0 <= b < n && a != b implies #[trigger] entries@[a].0@
        != #[trigger] entries@[b].0@ by {
        if a > b {
            assert(entries@[b].0@ != entries@[a].0@);
        }
    }
    false
}

impl<V> View for AddressMap<V> {
    type V = Map<Seq<u8>, V>;

    closed spec fn view(&self) -> Map<Seq<u8>, V> {
        entries_map(self.entries@)
    }
}

impl<V> AddressMap<V> {
    /// The keys of the entries are pairwise distinct.
    pub closed spec fn wf(&self) -> bool {
        distinct_keys(self.entries@)
    }

    /// A table from a list of entries, when their keys are distinct.
    pub fn from_entries(entries: Vec<(Address, V)>) -> (r: Option<AddressMap<V>>)
        ensures
            match r {
                Some(m) => distinct_keys(entries@) && m.wf() && m@ == entries_map(entries@),
                None => !distinct_keys(entries@),
            },
    {
        if has_duplicate_key(&entries) {
            None
        } else {
            Some(AddressMap { entries })
        }
    }

    /// The entries of the table.
    pub fn into_entries(self) -> (r: Vec<(Address, V)>)
        requires
            self.wf(),
        ensures
            distinct_keys(r@),
            entries_map(r@) == self@,
    {
        self.entries
    }

    /// An empty table.
    pub fn new() -> (m: AddressMap<V>)
        ensures
            m.wf(),
            m@ == Map::<Seq<u8>, V>::empty(),
    {
        let m = AddressMap { entries: Vec::new() };
        assert(m@ =~= Map::<Seq<u8>, V>::empty());
        m
    }

    /// The keys of the table, each once.
    pub fn keys(&self) -> (r: Vec<Address>)
        requires
            self.wf(),
        ensures
            forall|k: Seq<u8>| self@.contains_key(k) <==> exists|i: int| 0 <= i < r@.len() && #[trigger] r@[i]@ == k,
            forall|i: int| 0 <= i < r@.len() ==> self@.contains_key(#[trigger] r@[i]@),
    {
        let mut out: Vec<Address> = Vec::new();
        let mut i: usize = 0;
        while i < self.entries.len()
            invariant
                i <= self.entries@.len(),
                out@.len() == i,
                forall|j: int| 0 <= j < i ==> (#[trigger] out@[j])@ == self.entries@[j].0@,
            decreases self.entries@.len() - i,
        {
            out.push(self.entries[i].0.duplicate());
            i = i + 1;
        }
        assert forall|k: Seq<u8>| self@.contains_key(k) implies exists|i: int| 0 <= i < out@.len() && #[trigger] out@[i]@
            == k by {
            let c = choose|j: int| 0 <= j < self.entries@.len() && #[trigger] self.entries@[j].0@ == k;
            assert(out@[c]@ == k);
        }
        assert forall|i: int| 0 <= i < out@.len() implies self@.contains_key(#[trigger] out@[i]@) by {
            assert(self.entries@[i].0@ == out@[i]@);
        }
        out
    }

    /// The position of the entry for `key`, if there is one.
    fn find(&self, key: &Address) -> (r: Option<usize>)
        requires
            self.wf(),
        ensures
            match r {
                Some(i) => i < self.entries@.len() && self.entries@[i as int].0@ == key@,
                None => forall|j: int| 0 <= j < self.entries@.len() ==> #[trigger] self.entries@[j].0@ != key@,
            },
    {
        let mut i: usize = 0;
        while i < self.entries.len()
            invariant
                i <= self.entries@.len(),
                forall|j: int| 0 <= j < i ==> #[trigger] self.entries@[j].0@ != key@,
            decreases self.entries@.len() - i,
        {
            if self.entries[i].0.same_as(key) {
                return Some(i);
            }
            i = i + 1;
        }
        None
    }

    proof fn lemma_entry_value(&self, i: int)
        requires
            self.wf(),
            0 <= i < self.entries@.len(),
        ensures
            self@.contains_key(self.entries@[i].0@),
            self@[self.entries@[i].0@] == self.entries@[i].1,
    {
        lemma_entries_map_value(self.entries@, i);
    }

    /// The value stored for `key`, if any.
    pub fn get(&self, key: &Address) -> (r: Option<&V>)
        requires
            self.wf(),
        ensures
            r == (if self@.contains_key(key@) { Some(&self@[key@]) } else { None::<&V> }),
    {
        match self.find(key) {
            Some(i) => {
                proof {
                    self.lemma_entry_value(i as int);
                }
                Some(&self.entries[i].1)
            },
            None => {
                assert(!self@.contains_key(key@));
                None
            },
        }
    }

    /// Stores `value` for `key`, replacing any earlier value.
    pub fn set(&mut self, key: &Address, value: V)
        requires
            old(self).wf(),
        ensures
            final(self).wf(),
            final(self)@ == old(self)@.insert(key@, value),
    {
        let ghost old_entries = self.entries@;
        match self.find(key) {
            Some(i) => {
                let k = key.duplicate();
                let ghost v = value;
                self.entries.set(i, (k, value));
                proof {
                    assert forall|a: int, b: int|
                        0 <= a < self.entries@.len() && 0 <= b < self.entries@.len() && a != b
                            implies #[trigger] self.entries@[a].0@ != #[trigger] self.entries@[b].0@ by {
                        assert(old_entries[a].0@ != old_entries[b].0@);
                    }
                    assert forall|k2: Seq<u8>| #[trigger] self@.contains_key(k2) == old(self)@.insert(key@, v).contains_key(k2) by {
                        if self@.contains_key(k2) {
                            let c = choose|j: int| 0 <= j < self.entries@.len() && #[trigger] self.entries@[j].0@ == k2;
                            if c != i {
                                assert(old_entries[c].0@ == k2);
                            }
                        }
                        if old(self)@.contains_key(k2) {
                            let c = choose|j: int| 0 <= j < old_entries.len() && #[trigger] old_entries[j].0@ == k2;
                            if c != i {
                                assert(self.entries@[c].0@ == k2);
                            } else {
                                assert(self.entries@[i as int].0@ == k2);
                            }
                        }
                        if k2 == key@ {
                            assert(self.entries@[i as int].0@ == k2);
                        }
                    }
                    assert forall|k2: Seq<u8>| #[trigger] self@.contains_key(k2) implies self@[k2] == old(self)@.insert(key@, v)[k2] by {
                        let c = choose|j: int| 0 <= j < self.entries@.len() && #[trigger] self.entries@[j].0@ == k2;
                        self.lemma_entry_value(c);
                        if c != i {
                            assert(old_entries[c] == self.entries@[c]);
                            old(self).lemma_entry_value(c);
                        }
                    }
                    assert(self@ =~= old(self)@.insert(key@, v));
                }
            },
            None => {
                let k = key.duplicate();
                let ghost v = value;
                self.entries.push((k, value));
                proof {
                    let n = old_entries.len() as int;
                    assert forall|a: int, b: int|
                        0 <= a < self.entries@.len() && 0 <= b < self.entries@.len() && a != b
                            implies #[trigger] self.entries@[a].0@ != #[trigger] self.entries@[b].0@ by {
                        if a < n && b < n {
                            assert(old_entries[a].0@ != old_entries[b].0@);
                        } else if a < n {
                            assert(old_entries[a].0@ != key@);
                        } else {
                            assert(old_entries[b].0@ != key@);
                        }
                    }
                    assert forall|k2: Seq<u8>| #[trigger] self@.contains_key(k2) == old(self)@.insert(key@, v).contains_key(k2) by {
                        if self@.contains_key(k2) {
                            let c = choose|j: int| 0 <= j < self.entries@.len() && #[trigger] self.entries@[j].0@ == k2;
                            if c < n {
                                assert(old_entries[c].0@ == k2);
                            }
                        }
                        if old(self)@.contains_key(k2) {
                            let c = choose|j: int| 0 <= j < old_entries.len() && #[trigger] old_entries[j].0@ == k2;
                            assert(self.entries@[c].0@ == k2);
                        }
                        if k2 == key@ {
                            assert(self.entries@[n].0@ == k2);
                        }
                    }
                    assert forall|k2: Seq<u8>| #[trigger] self@.contains_key(k2) implies self@[k2] == old(self)@.insert(key@, v)[k2] by {
                        let c = choose|j: int| 0 <= j < self.entries@.len() && #[trigger] self.entries@[j].0@ == k2;
                        self.lemma_entry_value(c);
                        if c < n {
                            assert(old_entries[c] == self.entries@[c]);
                            old(self).lemma_entry_value(c);
                        }
                    }
                    assert(self@ =~= old(self)@.insert(key@, v));
                }
            },
        }
    }
}

impl<V: Copy> AddressMap<V> {
    /// The value stored for `key`, or `default` when there is none.
    pub fn get_or(&self, key: &Address, default: V) -> (r: V)
        requires
            self.wf(),
        ensures
            r == (if self@.contains_key(key@) { self@[key@] } else { default }),
    {
        match self.get(key) {
            Some(v) => *v,
            None => default,
        }
    }

    /// A copy of the table.
    pub fn duplicate(&self) -> (r: AddressMap<V>)
        requires
            self.wf(),
        ensures
            r.wf(),
            r@ == self@,
    {
        let mut entries: Vec<(Address, V)> = Vec::new();
        let mut i: usize = 0;
        while i < self.entries.len()
            invariant
                i <= self.entries@.len(),
                entries@.len() == i,
                forall|j: int| 0 <= j < i ==> (#[trigger] entries@[j]).0@ == self.entries@[j].0@ && entries@[j].1 == self.entries@[j].1,
            decreases self.entries@.len() - i,
        {
            let k = self.entries[i].0.duplicate();
            let v = self.entries[i].1;
            entries.push((k, v));
            i = i + 1;
        }
        let r = AddressMap { entries };
        assert forall|a: int, b: int|
            0 <= a < r.entries@.len() && 0 <= b < r.entries@.len() && a != b
                implies #[trigger] r.entries@[a].0@ != #[trigger] r.entries@[b].0@ by {
            assert(self.entries@[a].0@ != self.entries@[b].0@);
        }
        assert forall|k: Seq<u8>| #[trigger] r@.contains_key(k) == self@.contains_key(k) by {
            if r@.contains_key(k) {
                let c = choose|j: int| 0 <= j < r.entries@.len() && #[trigger] r.entries@[j].0@ == k;
                assert(self.entries@[c].0@ == k);
            }
            if self@.contains_key(k) {
                let c = choose|j: int| 0 <= j < self.entries@.len() && #[trigger] self.entries@[j].0@ == k;
                assert(r.entries@[c].0@ == k);
            }
        }
        assert forall|k: Seq<u8>| #[trigger] r@.contains_key(k) implies r@[k] == self@[k] by {
            let c = choose|j: int| 0 <= j < r.entries@.len() && #[trigger] r.entries@[j].0@ == k;
            r.lemma_entry_value(c);
            self.lemma_entry_value(c);
        }
        assert(r@ =~= self@);
        r
    }
}

} // verus!
