//! The byte-oriented key-value collaborator contract: get, put and delete
//! over byte keys and values, with the in-memory backend. Get after put
//! returns the exact bytes written, and delete is idempotent.

use vstd::prelude::*;
use vstd::slice::slice_to_vec;

verus! {

/// A storage failure. The in-memory backend never fails; the type gives the
/// operations the error shape that interchangeable backends share.
#[derive(Debug)]
pub struct StorageError;

/// The mapping an entry list denotes: later entries override earlier ones
/// with the same key.
pub open spec fn entries_map(s: Seq<(Vec<u8>, Vec<u8>)>) -> Map<Seq<u8>, Seq<u8>>
    decreases s.len(),
{
    if s.len() == 0 {
        Map::empty()
    } else {
        entries_map(s.drop_last()).insert(s.last().0@, s.last().1@)
    }
}

/// The entries that survive deleting a key.
pub open spec fn entries_removed(s: Seq<(Vec<u8>, Vec<u8>)>, key: Seq<u8>) -> Seq<
    (Vec<u8>, Vec<u8>),
>
    decreases s.len(),
{
    if s.len() == 0 {
        s
    } else {
        let rest = entries_removed(s.drop_last(), key);
        if s.last().0@ == key {
            rest
        } else {
            rest.push(s.last())
        }
    }
}

/// Deleting a key from the entry list removes it from the denoted mapping.
pub proof fn lemma_entries_removed(s: Seq<(Vec<u8>, Vec<u8>)>, key: Seq<u8>)
    ensures
        entries_map(entries_removed(s, key)) == entries_map(s).remove(key),
    decreases s.len(),
{
    if s.len() == 0 {
        assert(entries_map(s).remove(key) =~= Map::<Seq<u8>, Seq<u8>>::empty());
    } else {
        lemma_entries_removed(s.drop_last(), key);
        let rest = entries_removed(s.drop_last(), key);
        if s.last().0@ == key {
            assert(entries_map(s).remove(key) =~= entries_map(s.drop_last()).remove(key));
        } else {
            assert((rest.push(s.last())).drop_last() =~= rest);
            assert(entries_map(s).remove(key) =~= entries_map(s.drop_last()).remove(key).insert(
                s.last().0@,
                s.last().1@,
            ));
        }
    }
}

/// Byte-slice equality.
fn eq_bytes(a: &[u8], b: &[u8]) -> (r: bool)
    ensures
        r == (a@ == b@),
{
    if a.len() != b.len() {
        return false;
    }
    let mut i: usize = 0;
    while i < a.len()
        invariant
            a@.len() == b@.len(),
            i <= a@.len(),
            forall|j: int| 0 <= j < i ==> a@[j] == b@[j],
        decreases a@.len() - i,
    {
        if a[i] != b[i] {
            return false;
        }
        i = i + 1;
    }
    proof {
        assert(a@ =~= b@);
    }
    true
}

/// Storage backend that keeps data in heap-allocated entries.
pub struct Backend {
    /// The entries written so far, oldest first.
    pub entries: Vec<(Vec<u8>, Vec<u8>)>,
}

impl View for Backend {
    type V = Map<Seq<u8>, Seq<u8>>;

    open spec fn view(&self) -> Map<Seq<u8>, Seq<u8>> {
        entries_map(self.entries@)
    }
}

impl Backend {
    /// Creates an empty store.
    pub fn new() -> (r: Backend)
        ensures
            r@ == Map::<Seq<u8>, Seq<u8>>::empty(),
    {
        Backend { entries: Vec::new() }
    }

    /// Reads the value last written under a key, or nothing when the key is
    /// absent. The in-memory backend never reports a storage error.
    pub fn get(&self, key: &[u8]) -> (r: Result<Option<Vec<u8>>, StorageError>)
        ensures
            match r {
                Ok(Some(v)) => self@.contains_key(key@) && v@ == self@[key@],
                Ok(None) => !self@.contains_key(key@),
                Err(_) => false,
            },
    {
        proof {
            assert(self.entries@.take(self.entries@.len() as int) =~= self.entries@);
        }
        let mut i: usize = self.entries.len();
        while i > 0
            invariant
                i <= self.entries@.len(),
                entries_map(self.entries@).contains_key(key@) == entries_map(
                    self.entries@.take(i as int),
                ).contains_key(key@),
                entries_map(self.entries@).contains_key(key@) ==> entries_map(self.entries@)[key@]
                    == entries_map(self.entries@.take(i as int))[key@],
            decreases i,
        {
            let e = &self.entries[i - 1];
            proof {
                assert(self.entries@.take(i as int).drop_last() =~= self.entries@.take(i - 1));
                assert(self.entries@.take(i as int).last() == self.entries@[i - 1]);
            }
            if eq_bytes(e.0.as_slice(), key) {
                let v = slice_to_vec(e.1.as_slice());
                return Ok(Some(v));
            }
            i = i - 1;
        }
        Ok(None)
    }

    /// Writes a value under a key, replacing what the key held. The
    /// in-memory backend never reports a storage error.
    pub fn put(&mut self, key: Vec<u8>, value: Vec<u8>) -> (r: Result<(), StorageError>)
        ensures
            r is Ok,
            final(self)@ == old(self)@.insert(key@, value@),
    {
        self.entries.push((key, value));
        proof {
            assert(self.entries@.drop_last() =~= old(self).entries@);
        }
        Ok(())
    }

    /// Deletes a key; deleting an absent key succeeds and changes nothing.
    /// The in-memory backend never reports a storage error.
    pub fn delete(&mut self, key: &[u8]) -> (r: Result<(), StorageError>)
        ensures
            r is Ok,
            final(self)@ == old(self)@.remove(key@),
    {
        proof {
            lemma_entries_removed(old(self).entries@, key@);
        }
        let ghost all = self.entries@;
        let mut kept: Vec<(Vec<u8>, Vec<u8>)> = Vec::new();
        let ghost done: Seq<(Vec<u8>, Vec<u8>)> = Seq::empty();
        let mut processed: Ghost<Seq<(Vec<u8>, Vec<u8>)>> = Ghost(done);
        while self.entries.len() > 0
            invariant
                all == processed@ + self.entries@,
                kept@ == entries_removed(processed@, key@),
            decreases self.entries@.len(),
        {
            let e = self.entries.remove(0);
            proof {
                assert((processed@.push(e)).drop_last() =~= processed@);
            }
            if !eq_bytes(e.0.as_slice(), key) {
                kept.push(e);
            }
            proof {
                processed@ = processed@.push(e);
                assert(all =~= processed@ + self.entries@);
            }
        }
        proof {
            assert(processed@ =~= all);
        }
        self.entries = kept;
        Ok(())
    }
}

/// Get after put: writing a value under a key and reading the key back
/// yields exactly the bytes written.
pub proof fn lemma_get_after_put(m: Map<Seq<u8>, Seq<u8>>, key: Seq<u8>, value: Seq<u8>)
    ensures
        m.insert(key, value).contains_key(key),
        m.insert(key, value)[key] == value,
{
}

/// Delete is idempotent: deleting a key twice leaves the same mapping as
/// deleting it once.
pub proof fn lemma_delete_idempotent(m: Map<Seq<u8>, Seq<u8>>, key: Seq<u8>)
    ensures
        m.remove(key).remove(key) == m.remove(key),
{
    assert(m.remove(key).remove(key) =~= m.remove(key));
}

} // verus!
