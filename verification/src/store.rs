//! An in-memory durable-store model: the store adapter's contract — does an
//! entry exist, how old is it, read it, write it — realized over a vector of
//! entries keyed by location bytes. Its view is the map from keys to entries
//! that the engine's protocol is specified against.

use vstd::prelude::*;

verus! {

/// One stored artifact: the serialized success payload of one invocation,
/// with the store-supplied last-modified timestamp.
pub struct StoredEntry {
    pub key: Vec<u8>,
    pub modified: i64,
    pub data: Vec<u8>,
}

/// What one entry holds, at the spec level.
pub ghost struct EntryModel {
    pub modified: int,
    pub data: Seq<u8>,
}

pub open spec fn entry_model(e: StoredEntry) -> EntryModel {
    EntryModel { modified: e.modified as int, data: e.data@ }
}

/// The map a sequence of entries stands for; a later entry wins a key.
pub open spec fn contents_of(s: Seq<StoredEntry>) -> Map<Seq<u8>, EntryModel>
    decreases s.len(),
{
    if s.len() == 0 {
        Map::empty()
    } else {
        contents_of(s.drop_last()).insert(s.last().key@, entry_model(s.last()))
    }
}

/// The durable key-value store, one artifact per key.
pub struct MemStore {
    entries: Vec<StoredEntry>,
}

impl View for MemStore {
    type V = Map<Seq<u8>, EntryModel>;

    closed spec fn view(&self) -> Map<Seq<u8>, EntryModel> {
        contents_of(self.entries@)
    }
}

pub open spec fn keys_unique(s: Seq<StoredEntry>) -> bool {
    forall|j: int, k: int| 0 <= j < k < s.len() ==> s[j].key@ != s[k].key@
}

proof fn lemma_contents_domain(s: Seq<StoredEntry>, key: Seq<u8>)
    ensures
        contents_of(s).contains_key(key) <==> exists|j: int|
            0 <= j < s.len() && s[j].key@ == key,
    decreases s.len(),
{
    if s.len() == 0 {
    } else {
        lemma_contents_domain(s.drop_last(), key);
        if s.last().key@ == key {
            assert(s[s.len() - 1].key@ == key);
        } else if contents_of(s).contains_key(key) {
            let j = choose|j: int| 0 <= j < s.drop_last().len() && s.drop_last()[j].key@ == key;
            assert(s[j].key@ == key);
        } else {
            assert forall|j: int| 0 <= j < s.len() implies s[j].key@ != key by {
                if j < s.len() - 1 {
                    assert(s.drop_last()[j].key@ == s[j].key@);
                }
            }
        }
    }
}

proof fn lemma_contents_at(s: Seq<StoredEntry>, j: int)
    requires
        keys_unique(s),
        0 <= j < s.len(),
    ensures
        contents_of(s).contains_key(s[j].key@),
        contents_of(s)[s[j].key@] == entry_model(s[j]),
    decreases s.len(),
{
    if j == s.len() - 1 {
    } else {
        assert(s.drop_last()[j] == s[j]);
        lemma_contents_at(s.drop_last(), j);
        assert(s[j].key@ != s.last().key@);
    }
}

proof fn lemma_contents_update(s: Seq<StoredEntry>, j: int, e: StoredEntry)
    requires
        keys_unique(s),
        0 <= j < s.len(),
        e.key@ == s[j].key@,
    ensures
        contents_of(s.update(j, e)) =~= contents_of(s).insert(e.key@, entry_model(e)),
    decreases s.len(),
{
    let t = s.update(j, e);
    if j == s.len() - 1 {
        assert(t.drop_last() =~= s.drop_last());
        assert(t.last() == e);
    } else {
        assert(t.drop_last() =~= s.drop_last().update(j, e));
        assert(s.drop_last()[j] == s[j]);
        lemma_contents_update(s.drop_last(), j, e);
        assert(t.last() == s.last());
        assert(e.key@ != s.last().key@);
        assert(contents_of(s.drop_last()).insert(e.key@, entry_model(e)).insert(
            s.last().key@,
            entry_model(s.last()),
        ) =~= contents_of(s.drop_last()).insert(s.last().key@, entry_model(s.last())).insert(
            e.key@,
            entry_model(e),
        ));
    }
}

fn bytes_eq(a: &Vec<u8>, b: &Vec<u8>) -> (r: bool)
    ensures
        r == (a@ == b@),
{
    if a.len() != b.len() {
        proof {
            assert(a@.len() != b@.len());
        }
        return false;
    }
    let n = a.len();
    let mut i: usize = 0;
    while i < n
        invariant
            i <= n,
            n == a@.len(),
            n == b@.len(),
            forall|j: int| 0 <= j < i ==> a@[j] == b@[j],
        decreases n - i,
    {
        if a[i] != b[i] {
            return false;
        }
        i += 1;
    }
    proof {
        assert(a@ =~= b@);
    }
    true
}

impl MemStore {
    /// Entry locations are pairwise distinct: the store holds one artifact
    /// per key.
    pub closed spec fn wf(&self) -> bool {
        keys_unique(self.entries@)
    }

    /// An empty store: every key is absent.
    pub fn new() -> (s: MemStore)
        ensures
            s.wf(),
            s@ == Map::<Seq<u8>, EntryModel>::empty(),
    {
        MemStore { entries: Vec::new() }
    }

    fn find(&self, key: &Vec<u8>) -> (r: Option<usize>)
        requires
            self.wf(),
        ensures
            (r matches Some(j) ==> j < self.entries@.len() && self.entries@[j as int].key@
                == key@),
            (r is None ==> forall|j: int|
                0 <= j < self.entries@.len() ==> self.entries@[j].key@ != key@),
    {
        let n = self.entries.len();
        let mut i: usize = 0;
        while i < n
            invariant
                i <= n,
                n == self.entries@.len(),
                forall|j: int| 0 <= j < i ==> self.entries@[j].key@ != key@,
            decreases n - i,
        {
            if bytes_eq(&self.entries[i].key, key) {
                return Some(i);
            }
            i += 1;
        }
        None
    }

    /// Existence probe: `false` is the normal answer for an absent entry,
    /// never a fault.
    pub fn contains(&self, key: &Vec<u8>) -> (r: bool)
        requires
            self.wf(),
        ensures
            r == self@.contains_key(key@),
    {
        proof {
            lemma_contents_domain(self.entries@, key@);
        }
        match self.find(key) {
            Some(j) => {
                proof {
                    lemma_contents_at(self.entries@, j as int);
                }
                true
            },
            None => false,
        }
    }

    /// The last-modified timestamp the store keeps for an existing entry.
    pub fn modified(&self, key: &Vec<u8>) -> (r: i64)
        requires
            self.wf(),
            self@.contains_key(key@),
        ensures
            r as int == self@[key@].modified,
    {
        proof {
            lemma_contents_domain(self.entries@, key@);
        }
        match self.find(key) {
            Some(j) => {
                proof {
                    lemma_contents_at(self.entries@, j as int);
                }
                self.entries[j].modified
            },
            None => {
                proof {
                    assert(false);
                }
                0
            },
        }
    }

    /// Reads the stored bytes of an existing entry.
    pub fn read(&self, key: &Vec<u8>) -> (r: Vec<u8>)
        requires
            self.wf(),
            self@.contains_key(key@),
        ensures
            r@ == self@[key@].data,
    {
        proof {
            lemma_contents_domain(self.entries@, key@);
        }
        match self.find(key) {
            Some(j) => {
                proof {
                    lemma_contents_at(self.entries@, j as int);
                }
                let entry = &self.entries[j];
                let mut out: Vec<u8> = Vec::new();
                let n = entry.data.len();
                let mut i: usize = 0;
                while i < n
                    invariant
                        i <= n,
                        n == entry.data@.len(),
                        out@ == entry.data@.take(i as int),
                    decreases n - i,
                {
                    out.push(entry.data[i]);
                    proof {
                        assert(out@ =~= entry.data@.take(i + 1 as int));
                    }
                    i += 1;
                }
                proof {
                    assert(entry.data@.take(n as int) =~= entry.data@);
                }
                out
            },
            None => {
                proof {
                    assert(false);
                }
                Vec::new()
            },
        }
    }

    /// Deletes the entry for a key, as an external actor may at any time;
    /// afterwards the key is absent — indistinguishable from never written —
    /// and every other key is untouched. Deleting an absent key is a no-op.
    pub fn delete(&mut self, key: &Vec<u8>)
        requires
            old(self).wf(),
        ensures
            final(self).wf(),
            final(self)@ == old(self)@.remove(key@),
    {
        let ghost entries0 = self.entries@;
        match self.find(key) {
            Some(j) => {
                proof {
                    lemma_contents_remove(entries0, j as int);
                }
                self.entries.remove(j);
                proof {
                    assert forall|a: int, b: int|
                        0 <= a < b < self.entries@.len() implies self.entries@[a].key@
                        != self.entries@[b].key@ by {
                        assert(self.entries@[a] == (if a < j {
                            entries0[a]
                        } else {
                            entries0[a + 1]
                        }));
                        assert(self.entries@[b] == (if b < j {
                            entries0[b]
                        } else {
                            entries0[b + 1]
                        }));
                    }
                }
            },
            None => {
                proof {
                    lemma_contents_domain(entries0, key@);
                    assert(self@ =~= self@.remove(key@));
                }
            },
        }
    }

    /// Writes (or overwrites) the entry for a key: afterwards the store holds
    /// exactly the given bytes under that key, stamped with `modified`, and
    /// every other key is untouched.
    pub fn write(&mut self, key: &Vec<u8>, modified: i64, data: Vec<u8>)
        requires
            old(self).wf(),
        ensures
            final(self).wf(),
            final(self)@ == old(self)@.insert(key@, EntryModel { modified: modified as int, data: data@ }),
    {
        let ghost entries0 = self.entries@;
        let mut key_copy: Vec<u8> = Vec::new();
        copy_into(&mut key_copy, key);
        let e = StoredEntry { key: key_copy, modified, data };
        match self.find(key) {
            Some(j) => {
                proof {
                    lemma_contents_update(entries0, j as int, e);
                }
                self.entries[j] = e;
                assert(self.entries@ =~= entries0.update(j as int, e));
            },
            None => {
                self.entries.push(e);
                proof {
                    assert(self.entries@.drop_last() =~= entries0);
                    assert(self.entries@.last() == e);
                    assert(contents_of(self.entries@) =~= contents_of(entries0).insert(
                        key@,
                        entry_model(e),
                    ));
                    assert forall|a: int, b: int|
                        0 <= a < b < self.entries@.len() implies self.entries@[a].key@
                        != self.entries@[b].key@ by {
                        if b == self.entries@.len() - 1 {
                            assert(self.entries@[a] == entries0[a]);
                        } else {
                            assert(self.entries@[a] == entries0[a]);
                            assert(self.entries@[b] == entries0[b]);
                        }
                    }
                }
            },
        }
    }
}

proof fn lemma_contents_remove(s: Seq<StoredEntry>, j: int)
    requires
        keys_unique(s),
        0 <= j < s.len(),
    ensures
        contents_of(s.remove(j)) =~= contents_of(s).remove(s[j].key@),
    decreases s.len(),
{
    lemma_contents_domain(s.drop_last(), s.last().key@);
    if j == s.len() - 1 {
        assert(s.remove(j) =~= s.drop_last());
        assert(!contents_of(s.drop_last()).contains_key(s.last().key@));
    } else {
        assert(s.remove(j).last() == s.last());
        assert(s.remove(j).drop_last() =~= s.drop_last().remove(j));
        assert(s.drop_last()[j] == s[j]);
        lemma_contents_remove(s.drop_last(), j);
        assert(s[j].key@ != s.last().key@);
    }
}

fn copy_into(out: &mut Vec<u8>, src: &Vec<u8>)
    requires
        old(out)@.len() == 0,
    ensures
        final(out)@ == src@,
{
    let n = src.len();
    let mut i: usize = 0;
    while i < n
        invariant
            i <= n,
            n == src@.len(),
            out@ == src@.take(i as int),
        decreases n - i,
    {
        out.push(src[i]);
        proof {
            assert(out@ =~= src@.take(i + 1 as int));
        }
        i += 1;
    }
    proof {
        assert(src@.take(n as int) =~= src@);
    }
}

} // verus!
