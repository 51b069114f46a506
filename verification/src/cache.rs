//! The peripheral cache: the single source of truth for known
//! devices.
//!
//! A map from device id to the live peripheral handle. Entries are
//! added when a device is selected or first looked up, replaced on
//! re-insert (last writer wins), and removed only by an explicit
//! forget — never expired, and kept across disconnects.

use vstd::prelude::*;

verus! {

/// One cached device: its id and the live peripheral handle.
pub struct CacheEntry<P> {
    pub id: String,
    pub handle: P,
}

/// Whether some entry carries this device id.
pub open spec fn cache_has_id<P>(entries: Seq<CacheEntry<P>>, id: Seq<char>) -> bool {
    exists|i: int| 0 <= i < entries.len() && (#[trigger] entries[i]).id@ == id
}

/// Whether no two entries share an id.
pub open spec fn cache_ids_unique<P>(entries: Seq<CacheEntry<P>>) -> bool {
    forall|i: int, j: int|
        0 <= i < j < entries.len() ==> (#[trigger] entries[i]).id@ != (
        #[trigger] entries[j]).id@
}

/// The position of the entry with this id (meaningful when
/// `cache_has_id` holds; with unique ids it is the only one).
pub open spec fn cache_index_of<P>(entries: Seq<CacheEntry<P>>, id: Seq<char>) -> int {
    choose|i: int| 0 <= i < entries.len() && (#[trigger] entries[i]).id@ == id
}

/// The cache of live peripheral handles, keyed by device id.
pub struct PeripheralCache<P> {
    pub entries: Vec<CacheEntry<P>>,
}

impl<P> PeripheralCache<P> {
    /// The cache invariant: one entry per device id.
    pub open spec fn wf(&self) -> bool {
        cache_ids_unique(self.entries@)
    }

    /// An empty cache.
    pub fn new() -> (r: PeripheralCache<P>)
        ensures
            r.wf(),
            r.entries@.len() == 0,
    {
        PeripheralCache { entries: Vec::new() }
    }

    /// How many devices are cached.
    pub fn len(&self) -> (r: usize)
        ensures
            r == self.entries@.len(),
    {
        self.entries.len()
    }

    /// Whether this device id is cached.
    pub fn contains(&self, id: &String) -> (r: bool)
        ensures
            r == cache_has_id(self.entries@, id@),
    {
        let mut i: usize = 0;
        while i < self.entries.len()
            invariant
                i <= self.entries@.len(),
                forall|k: int| 0 <= k < i ==> (#[trigger] self.entries@[k]).id@ != id@,
            decreases self.entries@.len() - i,
        {
            if self.entries[i].id == *id {
                assert(self.entries@[i as int].id@ == id@);
                return true;
            }
            i = i + 1;
        }
        false
    }

    /// The handle cached under this id, if any.
    pub fn get(&self, id: &String) -> (r: Option<&P>)
        requires
            self.wf(),
        ensures
            match r {
                Some(p) => {
                    &&& cache_has_id(self.entries@, id@)
                    &&& *p == self.entries@[cache_index_of(self.entries@, id@)].handle
                },
                None => !cache_has_id(self.entries@, id@),
            },
    {
        let mut i: usize = 0;
        while i < self.entries.len()
            invariant
                i <= self.entries@.len(),
                self.wf(),
                forall|k: int| 0 <= k < i ==> (#[trigger] self.entries@[k]).id@ != id@,
            decreases self.entries@.len() - i,
        {
            if self.entries[i].id == *id {
                proof {
                    assert(self.entries@[i as int].id@ == id@);
                    let w = cache_index_of(self.entries@, id@);
                    assert(0 <= w < self.entries@.len() && self.entries@[w].id@ == id@);
                    if w != i {
                        assert(false);
                    }
                }
                return Some(&self.entries[i].handle);
            }
            i = i + 1;
        }
        None
    }

    /// Caches a handle under an id. A handle already cached under the
    /// same id is replaced — last writer wins; any other entry is
    /// untouched.
    pub fn insert(&mut self, id: String, handle: P)
        requires
            old(self).wf(),
        ensures
            final(self).wf(),
            cache_has_id(final(self).entries@, id@),
            if cache_has_id(old(self).entries@, id@) {
                {
                    let w = cache_index_of(old(self).entries@, id@);
                    &&& final(self).entries@.len() == old(self).entries@.len()
                    &&& final(self).entries@[w].id@ == id@
                    &&& final(self).entries@[w].handle == handle
                    &&& forall|k: int|
                        0 <= k < old(self).entries@.len() && k != w ==> final(self).entries@[k]
                            == old(self).entries@[k]
                }
            } else {
                {
                    &&& final(self).entries@.len() == old(self).entries@.len() + 1
                    &&& final(self).entries@[old(self).entries@.len() as int].id@ == id@
                    &&& final(self).entries@[old(self).entries@.len() as int].handle == handle
                    &&& forall|k: int|
                        0 <= k < old(self).entries@.len() ==> final(self).entries@[k] == old(
                            self,
                        ).entries@[k]
                }
            },
    {
        let mut i: usize = 0;
        while i < self.entries.len()
            invariant
                i <= self.entries@.len(),
                *self == *old(self),
                old(self).wf(),
                forall|k: int| 0 <= k < i ==> (#[trigger] self.entries@[k]).id@ != id@,
            decreases self.entries@.len() - i,
        {
            if self.entries[i].id == id {
                proof {
                    assert(self.entries@[i as int].id@ == id@);
                    let w = cache_index_of(old(self).entries@, id@);
                    assert(0 <= w < old(self).entries@.len() && old(self).entries@[w].id@
                        == id@);
                    if w != i {
                        assert(false);
                    }
                }
                self.entries.set(i, CacheEntry { id, handle });
                proof {
                    assert(cache_has_id(self.entries@, self.entries@[i as int].id@));
                    assert forall|a: int, b: int| 0 <= a < b < self.entries@.len() implies (
                    #[trigger] self.entries@[a]).id@ != (#[trigger] self.entries@[b]).id@ by {
                        assert(old(self).entries@[a].id@ != old(self).entries@[b].id@);
                    }
                }
                return ;
            }
            i = i + 1;
        }
        let ghost prev = self.entries@;
        let ghost idv = id@;
        self.entries.push(CacheEntry { id, handle });
        proof {
            assert(self.entries@[prev.len() as int].id@ == idv);
            assert forall|a: int, b: int| 0 <= a < b < self.entries@.len() implies (
            #[trigger] self.entries@[a]).id@ != (#[trigger] self.entries@[b]).id@ by {
                if b == prev.len() {
                    assert(self.entries@[a] == prev[a]);
                }
            }
        }
    }

    /// Forgets a device: removes its entry and returns the handle, or
    /// does nothing for an unknown id. Forgetting does not require
    /// disconnecting first.
    pub fn remove(&mut self, id: &String) -> (r: Option<P>)
        requires
            old(self).wf(),
        ensures
            final(self).wf(),
            !cache_has_id(final(self).entries@, id@),
            match r {
                Some(p) => {
                    &&& cache_has_id(old(self).entries@, id@)
                    &&& p == old(self).entries@[cache_index_of(old(self).entries@, id@)].handle
                    &&& final(self).entries@ == old(self).entries@.remove(
                        cache_index_of(old(self).entries@, id@),
                    )
                },
                None => {
                    &&& !cache_has_id(old(self).entries@, id@)
                    &&& final(self).entries@ == old(self).entries@
                },
            },
    {
        let mut i: usize = 0;
        while i < self.entries.len()
            invariant
                i <= self.entries@.len(),
                *self == *old(self),
                old(self).wf(),
                forall|k: int| 0 <= k < i ==> (#[trigger] self.entries@[k]).id@ != id@,
            decreases self.entries@.len() - i,
        {
            if self.entries[i].id == *id {
                proof {
                    assert(self.entries@[i as int].id@ == id@);
                    let w = cache_index_of(old(self).entries@, id@);
                    assert(0 <= w < old(self).entries@.len() && old(self).entries@[w].id@
                        == id@);
                    if w != i {
                        assert(false);
                    }
                }
                let entry = self.entries.remove(i);
                proof {
                    assert forall|a: int, b: int| 0 <= a < b < self.entries@.len() implies (
                    #[trigger] self.entries@[a]).id@ != (#[trigger] self.entries@[b]).id@ by {
                        let oa = if a < i {
                            a
                        } else {
                            a + 1
                        };
                        let ob = if b < i {
                            b
                        } else {
                            b + 1
                        };
                        assert(self.entries@[a] == old(self).entries@[oa]);
                        assert(self.entries@[b] == old(self).entries@[ob]);
                    }
                    assert forall|k: int| 0 <= k < self.entries@.len() implies (
                    #[trigger] self.entries@[k]).id@ != id@ by {
                        let ok = if k < i {
                            k
                        } else {
                            k + 1
                        };
                        assert(self.entries@[k] == old(self).entries@[ok]);
                        if ok != i {
                            assert(old(self).entries@[ok].id@ != old(
                                self,
                            ).entries@[i as int].id@);
                        }
                    }
                }
                return Some(entry.handle);
            }
            i = i + 1;
        }
        None
    }

    /// The cached device ids, in insertion order.
    pub fn ids(&self) -> (r: Vec<String>)
        ensures
            r@.len() == self.entries@.len(),
            forall|i: int|
                0 <= i < self.entries@.len() ==> (#[trigger] r@[i])@ == self.entries@[i].id@,
    {
        let mut r: Vec<String> = Vec::new();
        let mut i: usize = 0;
        while i < self.entries.len()
            invariant
                i <= self.entries@.len(),
                r@.len() == i,
                forall|k: int|
                    0 <= k < i ==> (#[trigger] r@[k])@ == self.entries@[k].id@,
            decreases self.entries@.len() - i,
        {
            r.push(self.entries[i].id.clone());
            i = i + 1;
        }
        r
    }
}

} // verus!
