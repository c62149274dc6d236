//! The key-value substrate of the routing metadata store.
//!
//! [`KvStore`] is an in-memory, byte-oriented store with last-write-wins
//! overwrite semantics, viewed as a `Map<Seq<u8>, Seq<u8>>`. The store is
//! an injected dependency of every routing operation, so callers can run
//! the store deterministically; it holds no hidden state beyond its
//! entries. [`ByteMap`] is the underlying association list, also used by
//! the catalog metadata manager with typed values.

use vstd::prelude::*;

use crate::keys::clone_bytes;

verus! {

/// Whether two byte slices hold the same bytes.
pub fn bytes_eq(a: &[u8], b: &[u8]) -> (r: bool)
    ensures
        r == (a@ == b@),
{
    if a.len() != b.len() {
        return false;
    }
    let mut i: usize = 0;
    while i < a.len()
        invariant
            0 <= i <= a@.len(),
            a@.len() == b@.len(),
            forall|j: int| 0 <= j < i ==> a@[j] == b@[j],
        decreases a@.len() - i,
    {
        if *vstd::slice::slice_index_get(a, i) != *vstd::slice::slice_index_get(b, i) {
            return false;
        }
        i = i + 1;
    }
    proof {
        assert(a@ =~= b@);
    }
    true
}

/// The map described by an association list, later entries overriding
/// earlier ones.
pub open spec fn entries_map<V: View>(s: Seq<(Vec<u8>, V)>) -> Map<Seq<u8>, V::V>
    decreases s.len(),
{
    if s.len() == 0 {
        Map::empty()
    } else {
        entries_map(s.drop_last()).insert(s.last().0@, s.last().1@)
    }
}

/// No two entries share a key.
pub open spec fn entry_keys_distinct<V: View>(s: Seq<(Vec<u8>, V)>) -> bool {
    forall|i: int, j: int| 0 <= i < j < s.len() ==> (#[trigger] s[i]).0@ != (#[trigger] s[j]).0@
}

/// With distinct keys, every entry is in the map with its own value.
pub proof fn lemma_entries_map_index<V: View>(s: Seq<(Vec<u8>, V)>, i: int)
    requires
        entry_keys_distinct(s),
        0 <= i < s.len(),
    ensures
        entries_map(s).contains_key(s[i].0@),
        entries_map(s)[s[i].0@] == s[i].1@,
    decreases s.len(),
{
    if i < s.len() - 1 {
        assert(entry_keys_distinct(s.drop_last()));
        lemma_entries_map_index(s.drop_last(), i);
        assert(s[i].0@ != s.last().0@);
    }
}

/// A key held by no entry is not in the map.
pub proof fn lemma_entries_map_absent<V: View>(s: Seq<(Vec<u8>, V)>, k: Seq<u8>)
    requires
        forall|i: int| 0 <= i < s.len() ==> (#[trigger] s[i]).0@ != k,
    ensures
        !entries_map(s).contains_key(k),
    decreases s.len(),
{
    if s.len() > 0 {
        lemma_entries_map_absent(s.drop_last(), k);
    }
}

/// Replacing the entry that holds a key updates the map at that key.
pub proof fn lemma_entries_map_update<V: View>(s: Seq<(Vec<u8>, V)>, i: int, e: (Vec<u8>, V))
    requires
        entry_keys_distinct(s),
        0 <= i < s.len(),
        e.0@ == s[i].0@,
    ensures
        entries_map(s.update(i, e)) == entries_map(s).insert(e.0@, e.1@),
    decreases s.len(),
{
    let t = s.update(i, e);
    if i == s.len() - 1 {
        assert(t.drop_last() =~= s.drop_last());
        assert(t.last() == e);
        assert(entries_map(s.drop_last()).insert(e.0@, e.1@) =~= entries_map(
            s.drop_last(),
        ).insert(s.last().0@, s.last().1@).insert(e.0@, e.1@));
    } else {
        assert(t.drop_last() =~= s.drop_last().update(i, e));
        assert(t.last() == s.last());
        assert(entry_keys_distinct(s.drop_last()));
        assert(s.drop_last()[i] == s[i]);
        lemma_entries_map_update(s.drop_last(), i, e);
        assert(e.0@ != s.last().0@);
        assert(entries_map(s.drop_last()).insert(e.0@, e.1@).insert(s.last().0@, s.last().1@)
            =~= entries_map(s.drop_last()).insert(s.last().0@, s.last().1@).insert(e.0@, e.1@));
    }
}

/// An association list from byte keys to values, with distinct keys, viewed
/// as the map it describes.
pub struct ByteMap<V: View> {
    entries: Vec<(Vec<u8>, V)>,
}

impl<V: View> View for ByteMap<V> {
    type V = Map<Seq<u8>, V::V>;

    closed spec fn view(&self) -> Map<Seq<u8>, V::V> {
        entries_map(self.entries@)
    }
}

impl<V: View> ByteMap<V> {
    /// The internal invariant: no two entries share a key. Established by
    /// [`ByteMap::new`] and preserved by [`ByteMap::insert`].
    pub closed spec fn wf(&self) -> bool {
        entry_keys_distinct(self.entries@)
    }

    /// An empty map.
    pub fn new() -> (r: ByteMap<V>)
        ensures
            r@ == Map::<Seq<u8>, V::V>::empty(),
            r.wf(),
    {
        ByteMap { entries: Vec::new() }
    }

    /// Looks a key up; `None` exactly when the key is absent.
    pub fn get<'a>(&'a self, key: &[u8]) -> (r: Option<&'a V>)
        requires
            self.wf(),
        ensures
            match r {
                Some(v) => self@.contains_key(key@) && v@ == self@[key@],
                None => !self@.contains_key(key@),
            },
    {
        let mut i: usize = 0;
        while i < self.entries.len()
            invariant
                0 <= i <= self.entries@.len(),
                entry_keys_distinct(self.entries@),
                forall|j: int| 0 <= j < i ==> (#[trigger] self.entries@[j]).0@ != key@,
            decreases self.entries@.len() - i,
        {
            if bytes_eq(self.entries[i].0.as_slice(), key) {
                proof {
                    lemma_entries_map_index(self.entries@, i as int);
                }
                return Some(&self.entries[i].1);
            }
            i = i + 1;
        }
        proof {
            lemma_entries_map_absent(self.entries@, key@);
        }
        None
    }

    /// Inserts a value under a key, overwriting any previous value:
    /// last write wins.
    pub fn insert(&mut self, key: Vec<u8>, value: V)
        requires
            old(self).wf(),
        ensures
            final(self)@ == old(self)@.insert(key@, value@),
            final(self).wf(),
    {
        let ghost s0 = self.entries@;
        let mut i: usize = 0;
        while i < self.entries.len()
            invariant
                0 <= i <= self.entries@.len(),
                self.entries@ == s0,
                s0 == old(self).entries@,
                entry_keys_distinct(s0),
                forall|j: int| 0 <= j < i ==> (#[trigger] s0[j]).0@ != key@,
            decreases self.entries@.len() - i,
        {
            if bytes_eq(self.entries[i].0.as_slice(), key.as_slice()) {
                proof {
                    lemma_entries_map_update(s0, i as int, (key, value));
                    assert forall|a: int, b: int|
                        0 <= a < b < s0.update(i as int, (key, value)).len() implies (
                    #[trigger] s0.update(i as int, (key, value))[a]).0@ != (#[trigger] s0.update(
                        i as int,
                        (key, value),
                    )[b]).0@ by {
                        assert(s0[a].0@ != s0[b].0@);
                    }
                }
                self.entries.set(i, (key, value));
                return ;
            }
            i = i + 1;
        }
        proof {
            lemma_entries_map_absent(s0, key@);
            assert(s0.push((key, value)).drop_last() =~= s0);
            assert(forall|j: int|
                0 <= j < s0.len() ==> #[trigger] s0.push((key, value))[j] == s0[j]);
        }
        self.entries.push((key, value));
        proof {
            assert(self.entries@ == s0.push((key, value)));
            assert(entries_map(self.entries@) == entries_map(s0).insert(key@, value@));
        }
    }
}

/// The in-memory key-value store: byte keys, byte values, last-write-wins
/// overwrite semantics.
pub struct KvStore {
    entries: ByteMap<Vec<u8>>,
}

impl KvStore {
    /// The internal invariant of the store. Established by [`KvStore::new`]
    /// and preserved by [`KvStore::put`].
    pub closed spec fn wf(&self) -> bool {
        self.entries.wf()
    }
}

impl View for KvStore {
    type V = Map<Seq<u8>, Seq<u8>>;

    closed spec fn view(&self) -> Map<Seq<u8>, Seq<u8>> {
        self.entries@
    }
}

impl KvStore {
    /// An empty store.
    pub fn new() -> (r: KvStore)
        ensures
            r@ == Map::<Seq<u8>, Seq<u8>>::empty(),
            r.wf(),
    {
        KvStore { entries: ByteMap::new() }
    }

    /// Reads the value under a key; `None` exactly when the key is absent.
    pub fn get(&self, key: &[u8]) -> (r: Option<Vec<u8>>)
        requires
            self.wf(),
        ensures
            match r {
                Some(v) => self@.contains_key(key@) && v@ == self@[key@],
                None => !self@.contains_key(key@),
            },
    {
        match self.entries.get(key) {
            Some(v) => Some(clone_bytes(v)),
            None => None,
        }
    }

    /// Writes a value under a key, overwriting any previous value. Returns
    /// the previous value only when `prev_kv` asks for it and one was there.
    pub fn put(&mut self, key: Vec<u8>, value: Vec<u8>, prev_kv: bool) -> (prev: Option<Vec<u8>>)
        requires
            old(self).wf(),
        ensures
            final(self)@ == old(self)@.insert(key@, value@),
            final(self).wf(),
            match prev {
                Some(v) => prev_kv && old(self)@.contains_key(key@) && v@ == old(self)@[key@],
                None => !prev_kv || !old(self)@.contains_key(key@),
            },
    {
        let prev = if prev_kv {
            match self.entries.get(key.as_slice()) {
                Some(v) => Some(clone_bytes(v)),
                None => None,
            }
        } else {
            None
        };
        self.entries.insert(key, value);
        prev
    }
}

} // verus!
