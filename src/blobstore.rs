//! The blob store of a repository: a physical store, optional cache tiers in
//! front of it, and the censorship overlay in front of everything.

use vstd::prelude::*;
use crate::config::RepositoryId;
use crate::keys::{lemma_prefix_injective, physical_key, repo_prefix};
use crate::table::StrTable;

verus! {

pub open spec fn opt_bytes(o: Option<Vec<u8>>) -> Option<Seq<u8>> {
    match o {
        Some(v) => Some(v@),
        None => None,
    }
}

fn copy_bytes(v: &Vec<u8>) -> (r: Vec<u8>)
    ensures
        r@ == v@,
{
    let mut r: Vec<u8> = Vec::new();
    let mut i: usize = 0;
    while i < v.len()
        invariant
            i <= v@.len(),
            r@ == v@.subrange(0, i as int),
        decreases v@.len() - i,
    {
        r.push(v[i]);
        i = i + 1;
        assert(r@ =~= v@.subrange(0, i as int));
    }
    assert(v@.subrange(0, v@.len() as int) =~= v@);
    r
}

/// An in-memory physical blob store.
pub struct MemBlob {
    pub table: StrTable<Vec<u8>>,
}

impl View for MemBlob {
    type V = Map<Seq<char>, Seq<u8>>;

    open spec fn view(&self) -> Map<Seq<char>, Seq<u8>> {
        Map::new(|k: Seq<char>| self.table.get_spec(k) is Some, |k: Seq<char>| self.table.get_spec(k)->0@)
    }
}

impl MemBlob {
    pub fn new() -> (r: Self)
        ensures
            r@ == Map::<Seq<char>, Seq<u8>>::empty(),
    {
        let r = MemBlob { table: StrTable::new() };
        assert(r@ =~= Map::<Seq<char>, Seq<u8>>::empty());
        r
    }

    pub fn get(&self, key: &String) -> (r: Option<Vec<u8>>)
        ensures
            opt_bytes(r) == self@.get(key@),
    {
        match self.table.get(key) {
            Some(v) => Some(copy_bytes(v)),
            None => None,
        }
    }

    pub fn put(&mut self, key: String, value: Vec<u8>)
        ensures
            final(self)@ == old(self)@.insert(key@, value@),
    {
        let ghost k = key@;
        let ghost v = value@;
        self.table.set(key, value);
        assert(self@ =~= old(self)@.insert(k, v));
    }

    pub fn is_present(&self, key: &String) -> (r: bool)
        ensures
            r == self@.contains_key(key@),
    {
        self.table.contains(key)
    }
}

/// Every entry of `entries` agrees with `backend`.
pub open spec fn agrees(entries: Seq<(String, Vec<u8>)>, backend: Map<Seq<char>, Seq<u8>>) -> bool {
    forall|i: int| 0 <= i < entries.len() ==> backend.contains_key(#[trigger] entries[i].0@)
        && backend[entries[i].0@] == entries[i].1@
}

/// A bounded tier caching blob contents; the oldest entry leaves first.
pub struct BlobCache {
    pub capacity: usize,
    pub entries: Vec<(String, Vec<u8>)>,
}

impl BlobCache {
    /// Holds at most `capacity` entries, each agreeing with `backend`.
    pub open spec fn coherent(&self, backend: Map<Seq<char>, Seq<u8>>) -> bool {
        self.entries@.len() <= self.capacity && agrees(self.entries@, backend)
    }

    pub fn new(capacity: usize) -> (r: Self)
        ensures
            r.capacity == capacity,
            forall|m: Map<Seq<char>, Seq<u8>>| r.coherent(m),
    {
        BlobCache { capacity, entries: Vec::new() }
    }

    /// A cached copy of `key`'s contents, if this tier holds one.
    fn find(&self, key: &String, Ghost(backend): Ghost<Map<Seq<char>, Seq<u8>>>) -> (r: Option<Vec<u8>>)
        requires
            self.coherent(backend),
        ensures
            r matches Some(v) ==> backend.contains_key(key@) && backend[key@] == v@,
    {
        let mut i: usize = 0;
        while i < self.entries.len()
            invariant
                i <= self.entries@.len(),
                self.coherent(backend),
            decreases self.entries@.len() - i,
        {
            if self.entries[i].0 == *key {
                return Some(copy_bytes(&self.entries[i].1));
            }
            i = i + 1;
        }
        None
    }

    /// Drops every entry for `key`.
    fn invalidate(&mut self, key: &String, Ghost(backend): Ghost<Map<Seq<char>, Seq<u8>>>)
        requires
            old(self).coherent(backend),
        ensures
            final(self).coherent(backend),
            final(self).capacity == old(self).capacity,
            forall|i: int| 0 <= i < final(self).entries@.len() ==> #[trigger] final(self).entries@[i].0@ != key@,
    {
        let mut kept: Vec<(String, Vec<u8>)> = Vec::new();
        let mut i: usize = 0;
        while i < self.entries.len()
            invariant
                i <= self.entries@.len(),
                self.coherent(backend),
                kept@.len() <= i,
                agrees(kept@, backend),
                forall|j: int| 0 <= j < kept@.len() ==> #[trigger] kept@[j].0@ != key@,
            decreases self.entries@.len() - i,
        {
            if self.entries[i].0 != *key {
                let e = (self.entries[i].0.clone(), copy_bytes(&self.entries[i].1));
                let ghost prev = kept@;
                kept.push(e);
                proof {
                    assert forall|j: int| 0 <= j < kept@.len() implies backend.contains_key(
                        #[trigger] kept@[j].0@) && backend[kept@[j].0@] == kept@[j].1@
                        && kept@[j].0@ != key@ by {
                        if j < prev.len() {
                            assert(kept@[j] == prev[j]);
                        } else {
                            assert(self.entries@[i as int].0@ == kept@[j].0@);
                        }
                    }
                }
            }
            i = i + 1;
        }
        self.entries = kept;
    }

    /// Records `key`'s contents, evicting the oldest entry when full.
    fn insert(&mut self, key: String, value: Vec<u8>, Ghost(backend): Ghost<Map<Seq<char>, Seq<u8>>>)
        requires
            old(self).coherent(backend),
            backend.contains_key(key@),
            backend[key@] == value@,
        ensures
            final(self).coherent(backend),
            final(self).capacity == old(self).capacity,
    {
        if self.capacity == 0 {
            return;
        }
        if self.entries.len() >= self.capacity {
            let ghost prev = self.entries@;
            self.entries.remove(0);
            assert forall|j: int| 0 <= j < self.entries@.len() implies backend.contains_key(
                #[trigger] self.entries@[j].0@) && backend[self.entries@[j].0@] == self.entries@[j].1@ by {
                assert(self.entries@[j] == prev[j + 1]);
            }
        }
        let ghost prev = self.entries@;
        self.entries.push((key, value));
        assert forall|j: int| 0 <= j < self.entries@.len() implies backend.contains_key(
            #[trigger] self.entries@[j].0@) && backend[self.entries@[j].0@] == self.entries@[j].1@ by {
            if j < prev.len() {
                assert(self.entries@[j] == prev[j]);
            }
        }
    }
}

/// A bounded tier caching existence probes.
pub struct PresenceCache {
    pub capacity: usize,
    pub keys: Vec<String>,
}

impl PresenceCache {
    /// Holds at most `capacity` keys, each present in `backend`.
    pub open spec fn coherent(&self, backend: Map<Seq<char>, Seq<u8>>) -> bool {
        self.keys@.len() <= self.capacity && forall|i: int| 0 <= i < self.keys@.len()
            ==> backend.contains_key(#[trigger] self.keys@[i]@)
    }

    pub fn new(capacity: usize) -> (r: Self)
        ensures
            r.capacity == capacity,
            forall|m: Map<Seq<char>, Seq<u8>>| r.coherent(m),
    {
        PresenceCache { capacity, keys: Vec::new() }
    }

    fn find(&self, key: &String, Ghost(backend): Ghost<Map<Seq<char>, Seq<u8>>>) -> (r: bool)
        requires
            self.coherent(backend),
        ensures
            r ==> backend.contains_key(key@),
    {
        let mut i: usize = 0;
        while i < self.keys.len()
            invariant
                i <= self.keys@.len(),
                self.coherent(backend),
            decreases self.keys@.len() - i,
        {
            if self.keys[i] == *key {
                return true;
            }
            i = i + 1;
        }
        false
    }

    fn insert(&mut self, key: String, Ghost(backend): Ghost<Map<Seq<char>, Seq<u8>>>)
        requires
            old(self).coherent(backend),
            backend.contains_key(key@),
        ensures
            final(self).coherent(backend),
            final(self).capacity == old(self).capacity,
    {
        if self.capacity == 0 {
            return;
        }
        if self.keys.len() >= self.capacity {
            let ghost prev = self.keys@;
            self.keys.remove(0);
            assert forall|j: int| 0 <= j < self.keys@.len() implies backend.contains_key(
                #[trigger] self.keys@[j]@) by {
                assert(self.keys@[j] == prev[j + 1]);
            }
        }
        let ghost prev = self.keys@;
        self.keys.push(key);
        assert forall|j: int| 0 <= j < self.keys@.len() implies backend.contains_key(
            #[trigger] self.keys@[j]@) by {
            if j < prev.len() {
                assert(self.keys@[j] == prev[j]);
            }
        }
    }
}

/// The process-local tier: one pool for contents, one for existence probes.
pub struct LocalTier {
    pub blobs: BlobCache,
    pub presence: PresenceCache,
}

/// The physical store with the cache tiers that the profile selects: a
/// distributed tier and a process-local tier, both optional. Which tier serves
/// a read is invisible to callers.
pub struct CachedBlobstore {
    pub backend: MemBlob,
    pub remote: Option<BlobCache>,
    pub local: Option<LocalTier>,
}

impl CachedBlobstore {
    pub open spec fn wf(&self) -> bool {
        &&& (self.remote matches Some(c) ==> c.coherent(self.backend@))
        &&& (self.local matches Some(l) ==> l.blobs.coherent(self.backend@) && l.presence.coherent(
            self.backend@,
        ))
    }

    /// The contents callers see: those of the physical store.
    pub open spec fn contents(&self) -> Map<Seq<char>, Seq<u8>> {
        self.backend@
    }

    /// A store without cache tiers.
    pub fn uncached(backend: MemBlob) -> (r: Self)
        ensures
            r.wf(),
            r.contents() == backend@,
            r.remote is None,
            r.local is None,
    {
        CachedBlobstore { backend, remote: None, local: None }
    }

    /// A miss falls through to the next tier; a hit stops there. What a lower
    /// tier returns is recorded in the tiers above it.
    pub fn get(&mut self, key: &String) -> (r: Option<Vec<u8>>)
        requires
            old(self).wf(),
        ensures
            final(self).wf(),
            final(self).contents() == old(self).contents(),
            opt_bytes(r) == old(self).contents().get(key@),
    {
        let ghost backend = self.backend@;
        if let Some(local) = &self.local {
            if let Some(v) = local.blobs.find(key, Ghost(backend)) {
                return Some(v);
            }
        }
        let found = match &self.remote {
            Some(remote) => remote.find(key, Ghost(backend)),
            None => None,
        };
        let r = match found {
            Some(v) => Some(v),
            None => {
                let fetched = self.backend.get(key);
                if let Some(v) = &fetched {
                    if let Some(remote) = &mut self.remote {
                        remote.insert(key.clone(), copy_bytes(v), Ghost(backend));
                    }
                }
                fetched
            },
        };
        if let Some(v) = &r {
            if let Some(local) = &mut self.local {
                local.blobs.insert(key.clone(), copy_bytes(v), Ghost(backend));
            }
        }
        r
    }

    /// Writes to the physical store, then records the new contents in each tier.
    pub fn put(&mut self, key: String, value: Vec<u8>)
        requires
            old(self).wf(),
        ensures
            final(self).wf(),
            final(self).contents() == old(self).contents().insert(key@, value@),
    {
        let ghost before = self.backend@;
        self.backend.put(key.clone(), copy_bytes(&value));
        let ghost after = self.backend@;
        assert(after == before.insert(key@, value@));
        if let Some(remote) = &mut self.remote {
            remote.invalidate(&key, Ghost(before));
            proof {
                assert forall|i: int| 0 <= i < remote.entries@.len() implies after.contains_key(
                    #[trigger] remote.entries@[i].0@) && after[remote.entries@[i].0@]
                    == remote.entries@[i].1@ by {
                    assert(remote.entries@[i].0@ != key@);
                }
            }
            remote.insert(key.clone(), copy_bytes(&value), Ghost(after));
        }
        if let Some(local) = &mut self.local {
            local.blobs.invalidate(&key, Ghost(before));
            proof {
                assert forall|i: int| 0 <= i < local.blobs.entries@.len() implies after.contains_key(
                    #[trigger] local.blobs.entries@[i].0@) && after[local.blobs.entries@[i].0@]
                    == local.blobs.entries@[i].1@ by {
                    assert(local.blobs.entries@[i].0@ != key@);
                }
                assert forall|i: int| 0 <= i < local.presence.keys@.len() implies after.contains_key(
                    #[trigger] local.presence.keys@[i]@) by {
                    assert(before.contains_key(local.presence.keys@[i]@));
                }
            }
            local.blobs.insert(key.clone(), copy_bytes(&value), Ghost(after));
            local.presence.insert(key, Ghost(after));
        }
    }

    /// Existence probes go to the presence pool first; a positive answer from
    /// below is recorded there.
    pub fn is_present(&mut self, key: &String) -> (r: bool)
        requires
            old(self).wf(),
        ensures
            final(self).wf(),
            final(self).contents() == old(self).contents(),
            r == old(self).contents().contains_key(key@),
    {
        let ghost backend = self.backend@;
        if let Some(local) = &self.local {
            if local.presence.find(key, Ghost(backend)) {
                return true;
            }
        }
        let r = self.backend.is_present(key);
        if r {
            if let Some(local) = &mut self.local {
                local.presence.insert(key.clone(), Ghost(backend));
            }
        }
        r
    }
}

/// A blob operation refused by the censorship overlay.
#[derive(Debug)]
pub enum BlobError {
    /// The key is banned; distinct from a key that is absent.
    Censored { reason: String },
}

/// The reason `key` is banned, if censoring is on and the key is listed.
pub open spec fn censored_reason(censored: Option<StrTable<String>>, key: Seq<char>) -> Option<Seq<char>> {
    match censored {
        Some(t) => match t.get_spec(key) {
            Some(reason) => Some(reason@),
            None => None,
        },
        None => None,
    }
}

/// The blob store a repository handle exposes: the censorship overlay over
/// the cached store, with every key stored under the repository's prefix.
/// `censored` is `None` when censoring is off; it lists keys as callers
/// name them. When `censored_sink` names a telemetry table, every refused
/// access is recorded in `censored_events` until handed out; without one,
/// nothing is recorded.
pub struct RepoBlobstore {
    pub store: CachedBlobstore,
    pub censored: Option<StrTable<String>>,
    pub repoid: RepositoryId,
    pub censored_sink: Option<String>,
    pub censored_events: Vec<String>,
}

/// The events recorded after an access to `key`.
pub open spec fn events_after(
    events: Seq<String>,
    sink: Option<String>,
    censored: Option<StrTable<String>>,
    key: String,
) -> Seq<String> {
    if sink is Some && censored_reason(censored, key@) is Some {
        events.push(key)
    } else {
        events
    }
}

impl RepoBlobstore {
    pub open spec fn wf(&self) -> bool {
        self.store.wf()
    }

    /// The blobs of this repository, by the keys callers use.
    pub open spec fn contents(&self) -> Map<Seq<char>, Seq<u8>> {
        Map::new(
            |k: Seq<char>| self.store.contents().contains_key(repo_prefix(self.repoid.id) + k),
            |k: Seq<char>| self.store.contents()[repo_prefix(self.repoid.id) + k],
        )
    }

    fn check_censored(&mut self, key: &String) -> (r: Result<(), BlobError>)
        ensures
            final(self).store == old(self).store,
            final(self).censored == old(self).censored,
            final(self).repoid == old(self).repoid,
            final(self).censored_sink == old(self).censored_sink,
            final(self).censored_events@ == events_after(
                old(self).censored_events@,
                old(self).censored_sink,
                old(self).censored,
                *key,
            ),
            match censored_reason(old(self).censored, key@) {
                Some(reason) => r matches Err(BlobError::Censored { reason: x }) && x@ == reason,
                None => r is Ok,
            },
    {
        if let Some(t) = &self.censored {
            if let Some(reason) = t.get(key) {
                let r = Err(BlobError::Censored { reason: reason.clone() });
                if self.censored_sink.is_some() {
                    self.censored_events.push(key.clone());
                }
                return r;
            }
        }
        Ok(())
    }

    /// Hands out the recorded censored accesses, oldest first, for sending
    /// to the telemetry table.
    pub fn take_censored_events(&mut self) -> (r: Vec<String>)
        ensures
            r@ == old(self).censored_events@,
            final(self).censored_events@.len() == 0,
            final(self).store == old(self).store,
            final(self).censored == old(self).censored,
            final(self).repoid == old(self).repoid,
            final(self).censored_sink == old(self).censored_sink,
    {
        let mut out: Vec<String> = Vec::new();
        core::mem::swap(&mut out, &mut self.censored_events);
        out
    }

    /// A banned key gives `Censored` with its reason, never its contents nor
    /// `None`; any other key gives what the store beneath holds.
    pub fn get(&mut self, key: &String) -> (r: Result<Option<Vec<u8>>, BlobError>)
        requires
            old(self).wf(),
        ensures
            final(self).wf(),
            final(self).store.contents() == old(self).store.contents(),
            final(self).repoid == old(self).repoid,
            final(self).censored == old(self).censored,
            final(self).censored_sink == old(self).censored_sink,
            final(self).censored_events@ == events_after(
                old(self).censored_events@,
                old(self).censored_sink,
                old(self).censored,
                *key,
            ),
            match censored_reason(old(self).censored, key@) {
                Some(reason) => r matches Err(BlobError::Censored { reason: x }) && x@ == reason,
                None => r matches Ok(o) && opt_bytes(o) == old(self).contents().get(key@),
            },
    {
        match self.check_censored(key) {
            Err(e) => Err(e),
            Ok(()) => {
                let physical = physical_key(self.repoid.id, key);
                Ok(self.store.get(&physical))
            },
        }
    }

    /// A write to a banned key is refused and changes nothing.
    pub fn put(&mut self, key: String, value: Vec<u8>) -> (r: Result<(), BlobError>)
        requires
            old(self).wf(),
        ensures
            final(self).wf(),
            final(self).repoid == old(self).repoid,
            final(self).censored == old(self).censored,
            final(self).censored_sink == old(self).censored_sink,
            final(self).censored_events@ == events_after(
                old(self).censored_events@,
                old(self).censored_sink,
                old(self).censored,
                key,
            ),
            match censored_reason(old(self).censored, key@) {
                Some(reason) => r matches Err(BlobError::Censored { reason: x }) && x@ == reason
                    && final(self).store.contents() == old(self).store.contents(),
                None => r is Ok && final(self).store.contents() == old(self).store.contents().insert(
                    repo_prefix(old(self).repoid.id) + key@,
                    value@,
                ) && final(self).contents() == old(self).contents().insert(key@, value@),
            },
    {
        match self.check_censored(&key) {
            Err(e) => Err(e),
            Ok(()) => {
                let physical = physical_key(self.repoid.id, &key);
                self.store.put(physical, value);
                proof {
                    let p = repo_prefix(self.repoid.id);
                    assert forall|q: Seq<char>| #[trigger] self.contents().contains_key(q) == old(
                        self,
                    ).contents().insert(key@, value@).contains_key(q) by {
                        lemma_prefix_injective(p, q, key@);
                    }
                    assert forall|q: Seq<char>| #[trigger] self.contents().contains_key(q)
                        implies self.contents()[q] == old(self).contents().insert(key@, value@)[q] by {
                        lemma_prefix_injective(p, q, key@);
                    }
                    assert(self.contents() =~= old(self).contents().insert(key@, value@));
                }
                Ok(())
            },
        }
    }

    /// Existence probes are not censored.
    pub fn is_present(&mut self, key: &String) -> (r: bool)
        requires
            old(self).wf(),
        ensures
            final(self).wf(),
            final(self).store.contents() == old(self).store.contents(),
            final(self).repoid == old(self).repoid,
            final(self).censored == old(self).censored,
            final(self).censored_sink == old(self).censored_sink,
            final(self).censored_events == old(self).censored_events,
            r == old(self).contents().contains_key(key@),
    {
        let physical = physical_key(self.repoid.id, key);
        self.store.is_present(&physical)
    }
}

} // verus!
