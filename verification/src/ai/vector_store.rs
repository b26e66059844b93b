//! The in-memory store of background entries: one entry per identifier,
//! each with its embedding and text. Similarity scoring works on the
//! embeddings and lives with the numeric code; this module keeps the store
//! itself, whatever the embedding type.
use vstd::prelude::*;
use vstd::string::*;

verus! {

/// One stored background entry.
pub struct Entry<V> {
    pub id: String,
    pub vector: V,
    pub payload: String,
}

/// Background entries, in insertion order, at most one per identifier.
pub struct VectorStore<V> {
    entries: Vec<Entry<V>>,
}

/// No identifier occurs twice.
pub open spec fn ids_unique<V>(entries: Seq<Entry<V>>) -> bool {
    forall|i: int, j: int|
        0 <= i < j < entries.len() ==> #[trigger] entries[i].id@ != #[trigger] entries[j].id@
}

/// The position of the entry with identifier `id`, if there is one.
pub open spec fn position_of<V>(entries: Seq<Entry<V>>, id: Seq<char>) -> Option<int> {
    if exists|i: int| 0 <= i < entries.len() && #[trigger] entries[i].id@ == id {
        Some(choose|i: int| 0 <= i < entries.len() && #[trigger] entries[i].id@ == id)
    } else {
        None
    }
}

impl<V> VectorStore<V> {
    /// The stored entries, in insertion order.
    pub closed spec fn entries_view(&self) -> Seq<Entry<V>> {
        self.entries@
    }

    /// Identifiers are unique.
    pub closed spec fn wf(&self) -> bool {
        ids_unique(self.entries@)
    }

    /// An empty store.
    pub fn new() -> (r: Self)
        ensures
            r.wf(),
            r.entries_view() == Seq::<Entry<V>>::empty(),
    {
        VectorStore { entries: Vec::new() }
    }

    /// Stores `vector` and `payload` under `id`: an entry with that identifier
    /// is updated in place; otherwise a new entry is appended.
    pub fn upsert(&mut self, id: &str, vector: V, payload: &str)
        requires
            old(self).wf(),
        ensures
            final(self).wf(),
            ({
                let old_entries = old(self).entries_view();
                let new_entries = final(self).entries_view();
                match position_of(old_entries, id@) {
                    Some(i) => {
                        &&& new_entries.len() == old_entries.len()
                        &&& new_entries[i].id@ == id@
                        &&& new_entries[i].vector == vector
                        &&& new_entries[i].payload@ == payload@
                        &&& forall|j: int|
                            0 <= j < old_entries.len() && j != i ==> new_entries[j]
                                == old_entries[j]
                    },
                    None => {
                        &&& new_entries.len() == old_entries.len() + 1
                        &&& new_entries.drop_last() == old_entries
                        &&& new_entries.last().id@ == id@
                        &&& new_entries.last().vector == vector
                        &&& new_entries.last().payload@ == payload@
                    },
                }
            }),
    {
        let key = String::from_str(id);
        let n = self.entries.len();
        let mut i: usize = 0;
        while i < n
            invariant
                n == self.entries@.len(),
                self.entries@ == old(self).entries@,
                key@ == id@,
                ids_unique(self.entries@),
                forall|k: int| 0 <= k < i ==> #[trigger] self.entries@[k].id@ != id@,
            decreases n - i,
        {
            if self.entries[i].id == key {
                proof {
                    let p = position_of(self.entries@, id@);
                    assert(self.entries@[i as int].id@ == id@);
                    let c = choose|c: int| 0 <= c < self.entries@.len() && #[trigger] self.entries@[c].id@ == id@;
                    assert(c == i) by {
                        if c < i {
                        } else if c > i {
                            assert(self.entries@[i as int].id@ != self.entries@[c].id@);
                        }
                    }
                }
                let entry = Entry { id: key, vector, payload: String::from_str(payload) };
                let ghost before = self.entries@;
                self.entries.set(i, entry);
                assert forall|a: int, b: int| 0 <= a < b < self.entries@.len() implies #[trigger] self.entries@[a].id@
                    != #[trigger] self.entries@[b].id@ by {
                    assert(before[a].id@ != before[b].id@);
                }
                return ;
            }
            i = i + 1;
        }
        let entry = Entry { id: key, vector, payload: String::from_str(payload) };
        self.entries.push(entry);
        assert(self.entries@.drop_last() =~= old(self).entries@);
    }

    /// Number of stored entries.
    pub fn len(&self) -> (r: usize)
        ensures
            r == self.entries_view().len(),
    {
        self.entries.len()
    }

    /// The stored entries, in insertion order.
    pub fn entries(&self) -> (r: &[Entry<V>])
        ensures
            r@ == self.entries_view(),
    {
        self.entries.as_slice()
    }
}

} // verus!
