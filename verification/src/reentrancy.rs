//! Reentrancy guard.
//!
//! A guard takes a lock entry under a key in the contract's temporary
//! storage for the duration of an operation, and refuses to be taken while
//! the entry is held.  `LockTable` holds the keys that are currently locked;
//! a guard is released explicitly when the guarded operation ends.

use vstd::prelude::*;

use crate::address::{bytes_equal, copy_bytes};

verus! {

/// Error code of a refused guard; it is the code of `Reentrancy` in every
/// operation error enum.
pub const REENTRANCY_ERROR: u32 = 7;

/// The key of the global lock, the bytes of `REENTRANCY_LOCK`.
pub open spec fn global_lock_key_spec() -> Seq<u8> {
    seq![82u8, 69u8, 69u8, 78u8, 84u8, 82u8, 65u8, 78u8, 67u8, 89u8, 95u8, 76u8, 79u8, 67u8, 75u8]
}

/// The key of the global lock.
pub fn global_lock_key() -> (r: Vec<u8>)
    ensures
        r@ == global_lock_key_spec(),
{
    let r: Vec<u8> = vec![82u8, 69u8, 69u8, 78u8, 84u8, 82u8, 65u8, 78u8, 67u8, 89u8, 95u8, 76u8, 79u8, 67u8, 75u8];
    assert(r@ =~= global_lock_key_spec());
    r
}

/// No byte string occurs twice.
pub open spec fn distinct_byte_strings(keys: Seq<Vec<u8>>) -> bool {
    forall|i: int, j: int| 0 <= i < keys.len() && 0 <= j < keys.len() && i != j ==> #[trigger] keys[i]@ != #[trigger] keys[j]@
}

/// The set of byte strings in a list.
pub open spec fn byte_string_set(keys: Seq<Vec<u8>>) -> Set<Seq<u8>> {
    Set::new(|k: Seq<u8>| exists|i: int| 0 <= i < keys.len() && #[trigger] keys[i]@ == k)
}

/// The lock entries currently held, each key once.
pub struct LockTable {
    held: Vec<Vec<u8>>,
}

impl View for LockTable {
    type V = Set<Seq<u8>>;

    closed spec fn view(&self) -> Set<Seq<u8>> {
        Set::new(|k: Seq<u8>| exists|i: int| 0 <= i < self.held@.len() && #[trigger] self.held@[i]@ == k)
    }
}

/// A held lock; releasing it frees its key.
pub struct ReentrancyGuard {
    key: Vec<u8>,
}

impl View for ReentrancyGuard {
    type V = Seq<u8>;

    closed spec fn view(&self) -> Seq<u8> {
        self.key@
    }
}

impl LockTable {
    pub closed spec fn wf(&self) -> bool {
        forall|i: int, j: int|
            0 <= i < self.held@.len() && 0 <= j < self.held@.len() && i != j ==> #[trigger] self.held@[i]@
                != #[trigger] self.held@[j]@
    }

    /// No lock held.
    pub fn new() -> (t: LockTable)
        ensures
            t.wf(),
            t@ == Set::<Seq<u8>>::empty(),
    {
        let t = LockTable { held: Vec::new() };
        assert(t@ =~= Set::<Seq<u8>>::empty());
        t
    }

    /// The lock table holding `keys`, when no key occurs twice.
    pub fn from_keys(keys: Vec<Vec<u8>>) -> (r: Option<LockTable>)
        ensures
            match r {
                Some(t) => distinct_byte_strings(keys@) && t.wf() && t@ == byte_string_set(keys@),
                None => !distinct_byte_strings(keys@),
            },
    {
        let n = keys.len();
        let mut i: usize = 0;
        while i < n
            invariant
                n == keys@.len(),
                i <= n,
                forall|a: int, b: int| 0 <= a < i && a < b < n ==> #[trigger] keys@[a]@ != #[trigger] keys@[b]@,
            decreases n - i,
        {
            let mut j: usize = i + 1;
            while j < n
                invariant
                    n == keys@.len(),
                    i < n,
                    i + 1 <= j <= n,
                    forall|a: int, b: int| 0 <= a < i && a < b < n ==> #[trigger] keys@[a]@ != #[trigger] keys@[b]@,
                    forall|b: int| i < b < j ==> keys@[i as int]@ != #[trigger] keys@[b]@,
                decreases n - j,
            {
                if bytes_equal(&keys[i], &keys[j]) {
                    return None;
                }
                j = j + 1;
            }
            i = i + 1;
        }
        assert forall|a: int, b: int| 0 <= a < n && 0 <= b < n && a != b implies #[trigger] keys@[a]@
            != #[trigger] keys@[b]@ by {
            if a > b {
                assert(keys@[b]@ != keys@[a]@);
            }
        }
        let t = LockTable { held: keys };
        assert(t@ =~= byte_string_set(t.held@));
        Some(t)
    }

    /// The keys held, each once.
    pub fn into_keys(self) -> (r: Vec<Vec<u8>>)
        requires
            self.wf(),
        ensures
            distinct_byte_strings(r@),
            byte_string_set(r@) == self@,
    {
        let r = self.held;
        assert(byte_string_set(r@) =~= self@);
        r
    }

    fn find(&self, key: &Vec<u8>) -> (r: Option<usize>)
        ensures
            match r {
                Some(i) => i < self.held@.len() && self.held@[i as int]@ == key@,
                None => !self@.contains(key@),
            },
    {
        let mut i: usize = 0;
        while i < self.held.len()
            invariant
                i <= self.held@.len(),
                forall|j: int| 0 <= j < i ==> #[trigger] self.held@[j]@ != key@,
            decreases self.held@.len() - i,
        {
            if bytes_equal(&self.held[i], key) {
                return Some(i);
            }
            i = i + 1;
        }
        None
    }

    /// Whether a lock entry is held under `key`.
    pub fn has(&self, key: &Vec<u8>) -> (r: bool)
        ensures
            r == self@.contains(key@),
    {
        self.find(key).is_some()
    }

    fn insert(&mut self, key: Vec<u8>)
        requires
            old(self).wf(),
            !old(self)@.contains(key@),
        ensures
            final(self).wf(),
            final(self)@ == old(self)@.insert(key@),
    {
        let ghost k = key@;
        let ghost old_held = self.held@;
        self.held.push(key);
        proof {
            let n = old_held.len() as int;
            assert forall|a: int, b: int|
                0 <= a < self.held@.len() && 0 <= b < self.held@.len() && a != b
                    implies #[trigger] self.held@[a]@ != #[trigger] self.held@[b]@ by {
                if a < n && b < n {
                } else if a < n {
                    assert(old_held[a]@ != k);
                } else {
                    assert(old_held[b]@ != k);
                }
            }
            assert forall|x: Seq<u8>| #[trigger] self@.contains(x) == old(self)@.insert(k).contains(x) by {
                if self@.contains(x) {
                    let c = choose|i: int| 0 <= i < self.held@.len() && #[trigger] self.held@[i]@ == x;
                    if c < n {
                        assert(old_held[c]@ == x);
                    }
                }
                if old(self)@.contains(x) {
                    let c = choose|i: int| 0 <= i < old_held.len() && #[trigger] old_held[i]@ == x;
                    assert(self.held@[c]@ == x);
                }
                if x == k {
                    assert(self.held@[n]@ == x);
                }
            }
            assert(self@ =~= old(self)@.insert(k));
        }
    }

    fn remove(&mut self, key: &Vec<u8>)
        requires
            old(self).wf(),
        ensures
            final(self).wf(),
            final(self)@ == old(self)@.remove(key@),
    {
        match self.find(key) {
            None => {
                assert(self@ =~= old(self)@.remove(key@));
            },
            Some(i) => {
                let ghost old_held = self.held@;
                self.held.remove(i);
                proof {
                    assert forall|a: int, b: int|
                        0 <= a < self.held@.len() && 0 <= b < self.held@.len() && a != b
                            implies #[trigger] self.held@[a]@ != #[trigger] self.held@[b]@ by {
                        let oa = if a < i { a } else { a + 1 };
                        let ob = if b < i { b } else { b + 1 };
                        assert(old_held[oa]@ != old_held[ob]@);
                    }
                    assert forall|x: Seq<u8>| #[trigger] self@.contains(x) == old(self)@.remove(key@).contains(x) by {
                        if self@.contains(x) {
                            let c = choose|j: int| 0 <= j < self.held@.len() && #[trigger] self.held@[j]@ == x;
                            let oc = if c < i { c } else { c + 1 };
                            assert(old_held[oc]@ == x);
                            assert(old_held[oc]@ != old_held[i as int]@);
                        }
                        if old(self)@.remove(key@).contains(x) {
                            let c = choose|j: int| 0 <= j < old_held.len() && #[trigger] old_held[j]@ == x;
                            assert(c != i);
                            let nc = if c < i { c } else { c - 1 };
                            assert(self.held@[nc]@ == x);
                        }
                    }
                    assert(self@ =~= old(self)@.remove(key@));
                }
            },
        }
    }
}

impl ReentrancyGuard {
    /// Take the global reentrancy lock.
    pub fn new(locks: &mut LockTable) -> (r: Result<ReentrancyGuard, u32>)
        requires
            old(locks).wf(),
        ensures
            final(locks).wf(),
            old(locks)@.contains(global_lock_key_spec()) ==> r == Err::<ReentrancyGuard, u32>(REENTRANCY_ERROR)
                && final(locks)@ == old(locks)@,
            !old(locks)@.contains(global_lock_key_spec()) ==> (r matches Ok(g) && g@ == global_lock_key_spec()
                && final(locks)@ == old(locks)@.insert(global_lock_key_spec())),
    {
        let key = global_lock_key();
        Self::new_with_key(locks, key)
    }

    /// Take the lock under `key`; refused with code 7 while it is held.
    pub fn new_with_key(locks: &mut LockTable, key: Vec<u8>) -> (r: Result<ReentrancyGuard, u32>)
        requires
            old(locks).wf(),
        ensures
            final(locks).wf(),
            old(locks)@.contains(key@) ==> r == Err::<ReentrancyGuard, u32>(REENTRANCY_ERROR) && final(locks)@
                == old(locks)@,
            !old(locks)@.contains(key@) ==> (r matches Ok(g) && g@ == key@ && final(locks)@ == old(locks)@.insert(
                key@,
            )),
    {
        if locks.has(&key) {
            return Err(REENTRANCY_ERROR);
        }
        let stored = copy_bytes(&key);
        locks.insert(stored);
        Ok(ReentrancyGuard { key })
    }

    /// Release the lock, freeing its key.
    pub fn release(self, locks: &mut LockTable)
        requires
            old(locks).wf(),
        ensures
            final(locks).wf(),
            final(locks)@ == old(locks)@.remove(self@),
    {
        locks.remove(&self.key);
    }
}

// ─── Laws ───────────────────────────────────────────────────────────────────

/// Taking a free key and then releasing it: after the take the key is held,
/// so by `new_with_key`'s contract a second guard on it is refused with code
/// 7; after the release it is free again, so a guard on it is granted; the
/// other keys are as they were.
pub proof fn law_lock_exclusive(held: Set<Seq<u8>>, key: Seq<u8>, other: Seq<u8>)
    requires
        !held.contains(key),
    ensures
        held.insert(key).contains(key),
        !held.insert(key).remove(key).contains(key),
        other != key ==> (held.insert(key).remove(key).contains(other) == held.contains(other)),
{
}

} // verus!
