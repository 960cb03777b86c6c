//! Keyed vault storage: record buffers addressed by a deterministic
//! 32-byte key. No global registry exists beyond this key-value store;
//! every operation re-resolves its vault here by key.

use vstd::prelude::*;

use crate::identity::Identity;

verus! {

/// One storage cell: a record buffer at its address.
pub struct StoreEntry {
    pub key: Identity,
    pub data: Vec<u8>,
}

/// No two entries share a key.
pub open spec fn spec_keys_distinct(entries: Seq<StoreEntry>) -> bool {
    forall|a: int, b: int| 0 <= a < b < entries.len() ==> entries[a].key@ != entries[b].key@
}

/// The map encoded by a sequence of entries, later entries winning; a
/// well-formed store never repeats a key, so no entry shadows another.
pub open spec fn spec_map_of(entries: Seq<StoreEntry>) -> Map<Seq<u8>, Seq<u8>>
    decreases entries.len(),
{
    if entries.len() == 0 {
        Map::empty()
    } else {
        spec_map_of(entries.drop_last()).insert(entries.last().key@, entries.last().data@)
    }
}

/// The key-value store of vault records.
pub struct VaultStore {
    entries: Vec<StoreEntry>,
}

impl View for VaultStore {
    type V = Map<Seq<u8>, Seq<u8>>;

    closed spec fn view(&self) -> Map<Seq<u8>, Seq<u8>> {
        spec_map_of(self.entries@)
    }
}

proof fn lemma_map_of_contains(entries: Seq<StoreEntry>, k: Seq<u8>)
    ensures
        spec_map_of(entries).contains_key(k) <==> (exists|i: int|
            0 <= i < entries.len() && entries[i].key@ == k),
    decreases entries.len(),
{
    if entries.len() > 0 {
        let prefix = entries.drop_last();
        lemma_map_of_contains(prefix, k);
        if entries.last().key@ == k {
            assert(entries[entries.len() - 1].key@ == k);
        } else {
            if exists|i: int| 0 <= i < prefix.len() && prefix[i].key@ == k {
                let i = choose|i: int| 0 <= i < prefix.len() && prefix[i].key@ == k;
                assert(entries[i].key@ == k);
            }
            if exists|i: int| 0 <= i < entries.len() && entries[i].key@ == k {
                let i = choose|i: int| 0 <= i < entries.len() && entries[i].key@ == k;
                assert(prefix[i].key@ == k);
            }
        }
    }
}

proof fn lemma_map_of_get(entries: Seq<StoreEntry>, i: int)
    requires
        0 <= i < entries.len(),
        spec_keys_distinct(entries),
    ensures
        spec_map_of(entries).contains_key(entries[i].key@),
        spec_map_of(entries)[entries[i].key@] == entries[i].data@,
    decreases entries.len(),
{
    if i < entries.len() - 1 {
        let prefix = entries.drop_last();
        assert(spec_keys_distinct(prefix)) by {
            assert(forall|a: int, b: int|
                0 <= a < b < prefix.len() ==> prefix[a] == entries[a] && prefix[b] == entries[b]);
        }
        lemma_map_of_get(prefix, i);
        assert(entries.last().key@ != entries[i].key@);
    }
}

proof fn lemma_map_of_update(entries: Seq<StoreEntry>, i: int, e: StoreEntry)
    requires
        0 <= i < entries.len(),
        spec_keys_distinct(entries),
        e.key@ == entries[i].key@,
    ensures
        spec_map_of(entries.update(i, e)) == spec_map_of(entries).insert(e.key@, e.data@),
    decreases entries.len(),
{
    let upd = entries.update(i, e);
    let prefix = entries.drop_last();
    if i == entries.len() - 1 {
        assert(upd.drop_last() =~= prefix);
        assert(upd.last() == e);
        assert(spec_map_of(prefix).insert(entries.last().key@, entries.last().data@).insert(
            e.key@,
            e.data@,
        ) =~= spec_map_of(prefix).insert(e.key@, e.data@));
    } else {
        assert(spec_keys_distinct(prefix)) by {
            assert(forall|a: int, b: int|
                0 <= a < b < prefix.len() ==> prefix[a] == entries[a] && prefix[b] == entries[b]);
        }
        assert(upd.drop_last() =~= prefix.update(i, e));
        assert(upd.last() == entries.last());
        lemma_map_of_update(prefix, i, e);
        assert(entries[i].key@ != entries.last().key@);
        assert(spec_map_of(prefix).insert(e.key@, e.data@).insert(
            entries.last().key@,
            entries.last().data@,
        ) =~= spec_map_of(prefix).insert(entries.last().key@, entries.last().data@).insert(
            e.key@,
            e.data@,
        ));
    }
}

proof fn lemma_map_of_remove(entries: Seq<StoreEntry>, i: int)
    requires
        0 <= i < entries.len(),
        spec_keys_distinct(entries),
    ensures
        spec_map_of(entries.remove(i)) == spec_map_of(entries).remove(entries[i].key@),
    decreases entries.len(),
{
    let rem = entries.remove(i);
    let prefix = entries.drop_last();
    let k = entries[i].key@;
    if i == entries.len() - 1 {
        assert(rem =~= prefix);
        lemma_map_of_contains(prefix, k);
        assert(forall|j: int| 0 <= j < prefix.len() ==> prefix[j] == entries[j]);
        assert(!spec_map_of(prefix).contains_key(k));
        assert(spec_map_of(prefix).insert(k, entries.last().data@).remove(k) =~= spec_map_of(
            prefix,
        ));
    } else {
        assert(spec_keys_distinct(prefix)) by {
            assert(forall|a: int, b: int|
                0 <= a < b < prefix.len() ==> prefix[a] == entries[a] && prefix[b] == entries[b]);
        }
        assert(rem.drop_last() =~= prefix.remove(i));
        assert(rem.last() == entries.last());
        lemma_map_of_remove(prefix, i);
        assert(k != entries.last().key@);
        assert(spec_map_of(prefix).remove(k).insert(entries.last().key@, entries.last().data@)
            =~= spec_map_of(prefix).insert(entries.last().key@, entries.last().data@).remove(k));
    }
}

impl VaultStore {
    /// Well-formedness: no two storage cells share an address. Every
    /// constructor establishes it and every operation preserves it.
    pub closed spec fn wf(&self) -> bool {
        spec_keys_distinct(self.entries@)
    }

    /// An empty store.
    pub fn new() -> (r: VaultStore)
        ensures
            r@ == Map::<Seq<u8>, Seq<u8>>::empty(),
            r.wf(),
    {
        VaultStore { entries: Vec::new() }
    }

    /// The index holding a key, if any.
    fn index_of(&self, key: &Identity) -> (r: Option<usize>)
        ensures
            match r {
                Some(i) => i < self.entries@.len() && self.entries@[i as int].key@ == key@,
                None => forall|j: int|
                    0 <= j < self.entries@.len() ==> self.entries@[j].key@ != key@,
            },
    {
        let n = self.entries.len();
        let mut i: usize = 0;
        while i < n
            invariant
                n == self.entries@.len(),
                i <= n,
                forall|j: int| 0 <= j < i ==> self.entries@[j].key@ != key@,
            decreases n - i,
        {
            if self.entries[i].key.equals(key) {
                return Some(i);
            }
            i += 1;
        }
        None
    }

    /// Whether a record sits at the given key.
    pub fn contains(&self, key: &Identity) -> (r: bool)
        requires
            self.wf(),
        ensures
            r == self@.contains_key(key@),
    {
        proof {
            lemma_map_of_contains(self.entries@, key@);
        }
        match self.index_of(key) {
            Some(_) => true,
            None => false,
        }
    }

    /// The record buffer at the given key, if any.
    pub fn get(&self, key: &Identity) -> (r: Option<&Vec<u8>>)
        requires
            self.wf(),
        ensures
            match r {
                Some(data) => self@.contains_key(key@) && data@ == self@[key@],
                None => !self@.contains_key(key@),
            },
    {
        proof {
            lemma_map_of_contains(self.entries@, key@);
        }
        match self.index_of(key) {
            Some(i) => {
                proof {
                    lemma_map_of_get(self.entries@, i as int);
                }
                Some(&self.entries[i].data)
            },
            None => None,
        }
    }

    /// Stores a record buffer at a key, replacing any buffer already there.
    pub fn put(&mut self, key: &Identity, data: Vec<u8>)
        requires
            old(self).wf(),
        ensures
            final(self)@ == old(self)@.insert(key@, data@),
            final(self).wf(),
    {
        let ghost entries0 = self.entries@;
        match self.index_of(key) {
            Some(i) => {
                let entry = StoreEntry { key: *key, data };
                self.entries[i] = entry;
                proof {
                    lemma_map_of_update(entries0, i as int, self.entries@[i as int]);
                    assert(spec_keys_distinct(self.entries@)) by {
                        assert(forall|j: int|
                            0 <= j < self.entries@.len() && j != i ==> self.entries@[j]
                                == entries0[j]);
                    }
                }
            },
            None => {
                let entry = StoreEntry { key: *key, data };
                self.entries.push(entry);
                proof {
                    assert(self.entries@.drop_last() =~= entries0);
                    assert(spec_keys_distinct(self.entries@)) by {
                        assert(forall|j: int|
                            0 <= j < entries0.len() ==> self.entries@[j] == entries0[j]);
                    }
                }
            },
        }
    }

    /// Deletes the record at a key, reporting whether one was there.
    pub fn remove(&mut self, key: &Identity) -> (r: bool)
        requires
            old(self).wf(),
        ensures
            final(self)@ == old(self)@.remove(key@),
            r == old(self)@.contains_key(key@),
            final(self).wf(),
    {
        proof {
            lemma_map_of_contains(self.entries@, key@);
        }
        let ghost entries0 = self.entries@;
        match self.index_of(key) {
            Some(i) => {
                self.entries.remove(i);
                proof {
                    lemma_map_of_remove(entries0, i as int);
                    assert(spec_keys_distinct(self.entries@)) by {
                        assert(forall|j: int|
                            0 <= j < self.entries@.len() ==> (if j < i {
                                self.entries@[j] == entries0[j]
                            } else {
                                self.entries@[j] == entries0[j + 1]
                            }));
                    }
                }
                true
            },
            None => {
                proof {
                    assert(spec_map_of(entries0).remove(key@) =~= spec_map_of(entries0));
                }
                false
            },
        }
    }
}

} // verus!
