use vstd::prelude::*;

use crate::bytes::{append_bytes, bytes_equal, copy_bytes};

verus! {

/// One named file of a memory store.
pub struct FileEntry {
    name: Vec<u8>,
    data: Vec<u8>,
}

/// Named files held in memory: the backend that names are resolved against.
pub struct MemoryStore {
    entries: Vec<FileEntry>,
}

impl MemoryStore {
    /// No two entries share a name.
    pub closed spec fn wf(&self) -> bool {
        forall|i: int, j: int|
            0 <= i < self.entries.len() && 0 <= j < self.entries.len() && i != j
                ==> #[trigger] self.entries[i].name@ != #[trigger] self.entries[j].name@
    }

    closed spec fn has_at(&self, k: Seq<u8>, i: int) -> bool {
        0 <= i < self.entries.len() && self.entries[i].name@ == k
    }

    proof fn lemma_unique(&self, k: Seq<u8>, i: int)
        requires
            self.wf(),
            self.has_at(k, i),
        ensures
            (choose|j: int| self.has_at(k, j)) == i,
    {
        let j = choose|j: int| self.has_at(k, j);
        assert(self.has_at(k, j));
        if j != i {
            assert(self.entries[i].name@ != self.entries[j].name@);
        }
    }
}

impl View for MemoryStore {
    type V = Map<Seq<u8>, Seq<u8>>;

    closed spec fn view(&self) -> Map<Seq<u8>, Seq<u8>> {
        Map::new(
            |k: Seq<u8>| exists|i: int| self.has_at(k, i),
            |k: Seq<u8>| self.entries[choose|i: int| self.has_at(k, i)].data@,
        )
    }
}

impl MemoryStore {
    /// An empty store.
    pub fn new() -> (r: MemoryStore)
        ensures
            r.wf(),
            r@ == Map::<Seq<u8>, Seq<u8>>::empty(),
    {
        let r = MemoryStore { entries: Vec::new() };
        proof {
            assert(r@ =~= Map::<Seq<u8>, Seq<u8>>::empty());
        }
        r
    }

    fn find(&self, name: &[u8]) -> (r: Option<usize>)
        requires
            self.wf(),
        ensures
            r matches Some(i) ==> self.has_at(name@, i as int),
            r is None ==> !self@.contains_key(name@),
    {
        let n = self.entries.len();
        let mut i: usize = 0;
        while i < n
            invariant
                n == self.entries.len(),
                0 <= i <= n,
                forall|k: int| 0 <= k < i ==> !self.has_at(name@, k),
            decreases n - i,
        {
            if bytes_equal(self.entries[i].name.as_slice(), name) {
                return Some(i);
            }
            i = i + 1;
        }
        None
    }

    /// The contents stored under `name`, if any.
    pub fn get(&self, name: &[u8]) -> (r: Option<Vec<u8>>)
        requires
            self.wf(),
        ensures
            r is Some <==> self@.contains_key(name@),
            r matches Some(d) ==> d@ == self@[name@],
    {
        match self.find(name) {
            Some(i) => {
                proof {
                    self.lemma_unique(name@, i as int);
                }
                Some(copy_bytes(self.entries[i].data.as_slice()))
            },
            None => None,
        }
    }

    /// Stores `data` under `name`, replacing what was there.
    pub fn put(&mut self, name: &[u8], data: Vec<u8>)
        requires
            old(self).wf(),
        ensures
            final(self).wf(),
            final(self)@ == old(self)@.insert(name@, data@),
    {
        let ghost old_store = *self;
        match self.find(name) {
            Some(i) => {
                let entry = FileEntry { name: copy_bytes(name), data };
                self.entries.set(i, entry);
                proof {
                    assert(self.entries@ =~= old_store.entries@.update(i as int, self.entries[i as int]));
                    self.lemma_put_at(&old_store, name@, i as int);
                }
            },
            None => {
                let entry = FileEntry { name: copy_bytes(name), data };
                self.entries.push(entry);
                proof {
                    self.lemma_put_at(&old_store, name@, old_store.entries.len() as int);
                }
            },
        }
    }

    /// Appends `data` to what is stored under `name`, which is created empty
    /// first if it is missing.
    pub fn append(&mut self, name: &[u8], data: &[u8])
        requires
            old(self).wf(),
        ensures
            final(self).wf(),
            final(self)@ == old(self)@.insert(
                name@,
                (if old(self)@.contains_key(name@) { old(self)@[name@] } else { Seq::empty() }) + data@,
            ),
    {
        let ghost old_store = *self;
        match self.find(name) {
            Some(i) => {
                proof {
                    self.lemma_unique(name@, i as int);
                }
                let mut entry = FileEntry { name: Vec::new(), data: Vec::new() };
                self.entries.set_and_swap(i, &mut entry);
                append_bytes(&mut entry.data, data);
                self.entries.set(i, entry);
                proof {
                    assert(self.entries@ =~= old_store.entries@.update(i as int, self.entries[i as int]));
                    self.lemma_put_at(&old_store, name@, i as int);
                }
            },
            None => {
                let entry = FileEntry { name: copy_bytes(name), data: copy_bytes(data) };
                self.entries.push(entry);
                proof {
                    assert(old_store@.contains_key(name@) == false);
                    assert(Seq::<u8>::empty() + data@ =~= data@);
                    self.lemma_put_at(&old_store, name@, old_store.entries.len() as int);
                }
            },
        }
    }

    /// After entry `i` was written with name `k` (or appended, when `i` is
    /// the old length) and nothing else changed, the map gained `k`.
    proof fn lemma_put_at(&self, old_store: &MemoryStore, k: Seq<u8>, i: int)
        requires
            old_store.wf(),
            0 <= i <= old_store.entries.len(),
            i < old_store.entries.len() ==> old_store.entries[i].name@ == k
                && self.entries@ == old_store.entries@.update(i, self.entries[i]),
            i == old_store.entries.len() ==> !old_store@.contains_key(k)
                && self.entries@ == old_store.entries@.push(self.entries[i]),
            self.entries[i].name@ == k,
        ensures
            self.wf(),
            self@ == old_store@.insert(k, self.entries[i].data@),
    {
        assert forall|a: int, b: int|
            0 <= a < self.entries.len() && 0 <= b < self.entries.len() && a != b
                implies #[trigger] self.entries[a].name@ != #[trigger] self.entries[b].name@ by {
            if a != i && b != i {
                assert(old_store.entries[a] == self.entries[a]);
                assert(old_store.entries[b] == self.entries[b]);
            } else if a == i {
                assert(old_store.entries[b] == self.entries[b]);
                if i == old_store.entries.len() {
                    assert(old_store.has_at(self.entries[b].name@, b));
                }
            } else {
                assert(old_store.entries[a] == self.entries[a]);
                if i == old_store.entries.len() {
                    assert(old_store.has_at(self.entries[a].name@, a));
                }
            }
        }
        assert forall|q: Seq<u8>| #[trigger] self@.contains_key(q) == old_store@.insert(k, self.entries[i].data@).contains_key(q) by {
            if q != k {
                if exists|j: int| self.has_at(q, j) {
                    let j = choose|j: int| self.has_at(q, j);
                    assert(j != i);
                    assert(old_store.has_at(q, j));
                }
                if exists|j: int| old_store.has_at(q, j) {
                    let j = choose|j: int| old_store.has_at(q, j);
                    assert(j != i);
                    assert(self.has_at(q, j));
                }
            } else {
                assert(self.has_at(k, i));
            }
        }
        assert forall|q: Seq<u8>| #[trigger] self@.contains_key(q) implies self@[q] == old_store@.insert(k, self.entries[i].data@)[q] by {
            let j = choose|j: int| self.has_at(q, j);
            self.lemma_unique(q, j);
            if q == k {
                assert(self.has_at(k, i));
                self.lemma_unique(k, i);
            } else {
                assert(j != i);
                assert(old_store.has_at(q, j));
                old_store.lemma_unique(q, j);
            }
        }
        assert(self@ =~= old_store@.insert(k, self.entries[i].data@));
    }
}

} // verus!
