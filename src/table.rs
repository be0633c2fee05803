//! Append-only keyed tables: the latest entry written for a key is its value.

use vstd::prelude::*;

verus! {

/// The value of the latest entry of `s` whose key is `k`.
pub open spec fn lookup<K, V>(s: Seq<(K, V)>, k: K) -> Option<V>
    decreases s.len(),
{
    if s.len() == 0 {
        None
    } else if s.last().0 == k {
        Some(s.last().1)
    } else {
        lookup(s.drop_last(), k)
    }
}

/// The keys of `s` viewed as character sequences.
pub open spec fn str_keys<V>(s: Seq<(String, V)>) -> Seq<(Seq<char>, V)> {
    s.map_values(|e: (String, V)| (e.0@, e.1))
}

/// Writing `(k, v)` last makes `v` the value of `k` and leaves other keys alone.
pub proof fn lemma_lookup_push<K, V>(s: Seq<(K, V)>, k: K, v: V, q: K)
    ensures
        lookup(s.push((k, v)), q) == if q == k { Some(v) } else { lookup(s, q) },
{
    assert(s.push((k, v)).drop_last() =~= s);
}

/// A table keyed by strings.
pub struct StrTable<V> {
    pub entries: Vec<(String, V)>,
}

impl<V> StrTable<V> {
    pub open spec fn get_spec(&self, k: Seq<char>) -> Option<V> {
        lookup(str_keys(self.entries@), k)
    }

    pub open spec fn contains_spec(&self, k: Seq<char>) -> bool {
        self.get_spec(k) is Some
    }

    pub fn new() -> (r: Self)
        ensures
            forall|k: Seq<char>| r.get_spec(k) is None,
    {
        StrTable { entries: Vec::new() }
    }

    /// Index of the latest entry for `k`.
    fn position(&self, k: &String) -> (r: Option<usize>)
        ensures
            match r {
                Some(i) => i < self.entries@.len() && self.get_spec(k@) == Some(
                    self.entries@[i as int].1,
                ),
                None => self.get_spec(k@) is None,
            },
    {
        let ghost s = str_keys(self.entries@);
        let mut i: usize = self.entries.len();
        assert(s.subrange(0, i as int) =~= s);
        while i > 0
            invariant
                i <= self.entries@.len(),
                s == str_keys(self.entries@),
                lookup(s, k@) == lookup(s.subrange(0, i as int), k@),
            decreases i,
        {
            let ghost sub = s.subrange(0, i as int);
            assert(sub.drop_last() =~= s.subrange(0, i - 1));
            if self.entries[i - 1].0 == *k {
                return Some(i - 1);
            }
            i = i - 1;
        }
        assert(s.subrange(0, 0) =~= Seq::<(Seq<char>, V)>::empty());
        None
    }

    pub fn get(&self, k: &String) -> (r: Option<&V>)
        ensures
            match r {
                Some(v) => self.get_spec(k@) == Some(*v),
                None => self.get_spec(k@) is None,
            },
    {
        match self.position(k) {
            Some(i) => Some(&self.entries[i].1),
            None => None,
        }
    }

    pub fn contains(&self, k: &String) -> (r: bool)
        ensures
            r == self.contains_spec(k@),
    {
        self.position(k).is_some()
    }

    pub fn set(&mut self, k: String, v: V)
        ensures
            forall|q: Seq<char>|
                #![auto]
                final(self).get_spec(q) == if q == k@ { Some(v) } else { old(self).get_spec(q) },
    {
        let ghost k0 = k@;
        self.entries.push((k, v));
        proof {
            assert(str_keys(self.entries@) =~= str_keys(old(self).entries@).push((k0, v)));
            assert forall|q: Seq<char>| #![auto]
                self.get_spec(q) == if q == k0 { Some(v) } else { old(self).get_spec(q) } by {
                lemma_lookup_push(str_keys(old(self).entries@), k0, v, q);
            }
        }
    }
}

/// A table keyed by integers.
pub struct IdTable<V> {
    pub entries: Vec<(u64, V)>,
}

impl<V> IdTable<V> {
    pub open spec fn get_spec(&self, k: u64) -> Option<V> {
        lookup(self.entries@, k)
    }

    pub fn new() -> (r: Self)
        ensures
            forall|k: u64| r.get_spec(k) is None,
    {
        IdTable { entries: Vec::new() }
    }

    pub fn get(&self, k: u64) -> (r: Option<&V>)
        ensures
            match r {
                Some(v) => self.get_spec(k) == Some(*v),
                None => self.get_spec(k) is None,
            },
    {
        let ghost s = self.entries@;
        let mut i: usize = self.entries.len();
        assert(s.subrange(0, i as int) =~= s);
        while i > 0
            invariant
                i <= self.entries@.len(),
                s == self.entries@,
                lookup(s, k) == lookup(s.subrange(0, i as int), k),
            decreases i,
        {
            assert(s.subrange(0, i as int).drop_last() =~= s.subrange(0, i - 1));
            if self.entries[i - 1].0 == k {
                return Some(&self.entries[i - 1].1);
            }
            i = i - 1;
        }
        assert(s.subrange(0, 0) =~= Seq::<(u64, V)>::empty());
        None
    }

    pub fn set(&mut self, k: u64, v: V)
        ensures
            forall|q: u64|
                #![auto]
                final(self).get_spec(q) == if q == k { Some(v) } else { old(self).get_spec(q) },
    {
        self.entries.push((k, v));
        proof {
            assert forall|q: u64| #![auto]
                self.get_spec(q) == if q == k { Some(v) } else { old(self).get_spec(q) } by {
                lemma_lookup_push(old(self).entries@, k, v, q);
            }
        }
    }
}

/// A bounded cache of entries of an integer-keyed table; the oldest entry
/// leaves first.
pub struct IdCache<V> {
    pub capacity: usize,
    pub entries: Vec<(u64, V)>,
}

impl<V: Copy> IdCache<V> {
    /// Holds at most `capacity` entries, each agreeing with `backend`.
    pub open spec fn coherent(&self, backend: IdTable<V>) -> bool {
        self.entries@.len() <= self.capacity && forall|i: int| 0 <= i < self.entries@.len()
            ==> backend.get_spec(#[trigger] self.entries@[i].0) == Some(self.entries@[i].1)
    }

    pub fn new(capacity: usize) -> (r: Self)
        ensures
            r.capacity == capacity,
            forall|b: IdTable<V>| r.coherent(b),
    {
        IdCache { capacity, entries: Vec::new() }
    }

    fn find(&self, k: u64, Ghost(backend): Ghost<IdTable<V>>) -> (r: Option<V>)
        requires
            self.coherent(backend),
        ensures
            r matches Some(v) ==> backend.get_spec(k) == Some(v),
    {
        let mut i: usize = 0;
        while i < self.entries.len()
            invariant
                i <= self.entries@.len(),
                self.coherent(backend),
            decreases self.entries@.len() - i,
        {
            if self.entries[i].0 == k {
                return Some(self.entries[i].1);
            }
            i = i + 1;
        }
        None
    }

    fn insert(&mut self, k: u64, v: V, Ghost(backend): Ghost<IdTable<V>>)
        requires
            old(self).coherent(backend),
            backend.get_spec(k) == Some(v),
        ensures
            final(self).coherent(backend),
            final(self).capacity == old(self).capacity,
    {
        if self.capacity == 0 {
            return;
        }
        if self.entries.len() >= self.capacity {
            let ghost prev = self.entries@;
            self.entries.remove(0);
            assert forall|j: int| 0 <= j < self.entries@.len() implies backend.get_spec(
                #[trigger] self.entries@[j].0) == Some(self.entries@[j].1) by {
                assert(self.entries@[j] == prev[j + 1]);
            }
        }
        let ghost prev = self.entries@;
        self.entries.push((k, v));
        assert forall|j: int| 0 <= j < self.entries@.len() implies backend.get_spec(
            #[trigger] self.entries@[j].0) == Some(self.entries@[j].1) by {
            if j < prev.len() {
                assert(self.entries@[j] == prev[j]);
            }
        }
    }

    /// Drops every entry for `k`.
    fn invalidate(&mut self, k: u64, Ghost(backend): Ghost<IdTable<V>>)
        requires
            old(self).coherent(backend),
        ensures
            final(self).coherent(backend),
            final(self).capacity == old(self).capacity,
            forall|i: int| 0 <= i < final(self).entries@.len() ==> #[trigger] final(self).entries@[i].0 != k,
    {
        let mut kept: Vec<(u64, V)> = Vec::new();
        let mut i: usize = 0;
        while i < self.entries.len()
            invariant
                i <= self.entries@.len(),
                self.coherent(backend),
                kept@.len() <= i,
                forall|j: int| 0 <= j < kept@.len() ==> #[trigger] kept@[j].0 != k && backend.get_spec(
                    kept@[j].0,
                ) == Some(kept@[j].1),
            decreases self.entries@.len() - i,
        {
            if self.entries[i].0 != k {
                let ghost prev = kept@;
                kept.push(self.entries[i]);
                proof {
                    assert forall|j: int| 0 <= j < kept@.len() implies #[trigger] kept@[j].0 != k
                        && backend.get_spec(kept@[j].0) == Some(kept@[j].1) by {
                        if j < prev.len() {
                            assert(kept@[j] == prev[j]);
                        }
                    }
                }
            }
            i = i + 1;
        }
        self.entries = kept;
    }
}

/// An integer-keyed table with an optional cache in front of it. Which of
/// the two serves a read is invisible to callers.
pub struct CachedIdTable<V> {
    pub backend: IdTable<V>,
    pub cache: Option<IdCache<V>>,
}

impl<V: Copy> CachedIdTable<V> {
    pub open spec fn wf(&self) -> bool {
        self.cache matches Some(c) ==> c.coherent(self.backend)
    }

    pub open spec fn get_spec(&self, k: u64) -> Option<V> {
        self.backend.get_spec(k)
    }

    pub fn new() -> (r: Self)
        ensures
            r.wf(),
            r.cache is None,
            forall|k: u64| r.get_spec(k) is None,
    {
        CachedIdTable { backend: IdTable::new(), cache: None }
    }

    /// Puts an empty cache of `capacity` entries in front of the table.
    pub fn enable_cache(&mut self, capacity: usize)
        ensures
            final(self).wf(),
            final(self).backend == old(self).backend,
            final(self).cache matches Some(c) && c.capacity == capacity,
    {
        self.cache = Some(IdCache::new(capacity));
    }

    /// Removes the cache.
    pub fn disable_cache(&mut self)
        ensures
            final(self).wf(),
            final(self).backend == old(self).backend,
            final(self).cache is None,
    {
        self.cache = None;
    }

    /// Reads `k`, from the cache when it holds it; a value read from the
    /// table is recorded in the cache.
    pub fn get(&mut self, k: u64) -> (r: Option<V>)
        requires
            old(self).wf(),
        ensures
            final(self).wf(),
            final(self).backend == old(self).backend,
            r == old(self).get_spec(k),
    {
        let ghost backend = self.backend;
        if let Some(c) = &self.cache {
            if let Some(v) = c.find(k, Ghost(backend)) {
                return Some(v);
            }
        }
        let r = match self.backend.get(k) {
            Some(v) => Some(*v),
            None => None,
        };
        if let Some(v) = r {
            if let Some(c) = &mut self.cache {
                c.insert(k, v, Ghost(backend));
            }
        }
        r
    }

    /// Reads `k` from the table, leaving the cache alone.
    pub fn peek(&self, k: u64) -> (r: Option<V>)
        ensures
            r == self.get_spec(k),
    {
        match self.backend.get(k) {
            Some(v) => Some(*v),
            None => None,
        }
    }

    /// Writes to the table; the cache drops what it held for `k`.
    pub fn set(&mut self, k: u64, v: V)
        requires
            old(self).wf(),
        ensures
            final(self).wf(),
            final(self).cache is Some == old(self).cache is Some,
            forall|q: u64|
                #![auto]
                final(self).get_spec(q) == if q == k { Some(v) } else { old(self).get_spec(q) },
    {
        let ghost before = self.backend;
        if let Some(c) = &mut self.cache {
            c.invalidate(k, Ghost(before));
        }
        self.backend.set(k, v);
        if let Some(c) = &mut self.cache {
            assert forall|i: int| 0 <= i < c.entries@.len() implies self.backend.get_spec(
                #[trigger] c.entries@[i].0) == Some(c.entries@[i].1) by {
                assert(c.entries@[i].0 != k);
                assert(before.get_spec(c.entries@[i].0) == Some(c.entries@[i].1));
            }
        }
    }
}

} // verus!
