//! Commit nodes, the cross-identifier mapping and file-history pointers.

use vstd::prelude::*;
use crate::config::RepositoryId;
use crate::table::{lemma_lookup_push, lookup, CachedIdTable};

verus! {

/// A commit identifier in the native naming scheme.
#[derive(Clone, Copy, Debug, PartialEq, Eq, Structural)]
pub struct ChangesetId {
    pub id: u64,
}

/// A commit identifier in the legacy naming scheme.
#[derive(Clone, Copy, Debug, PartialEq, Eq, Structural)]
pub struct HgChangesetId {
    pub id: u64,
}

/// A commit node: parents and generation number, scoped to one repository.
#[derive(Clone, Copy, Debug, PartialEq, Eq, Structural)]
pub struct ChangesetEntry {
    pub repo_id: RepositoryId,
    pub cs_id: ChangesetId,
    pub parent1: Option<ChangesetId>,
    pub parent2: Option<ChangesetId>,
    pub gen: u64,
}

/// The commit-node store, keyed by commit identifier, with the cache that
/// the production profile puts in front of it.
pub struct SqlChangesets {
    pub table: CachedIdTable<ChangesetEntry>,
}

impl SqlChangesets {
    pub open spec fn wf(&self) -> bool {
        self.table.wf()
    }

    pub open spec fn get_spec(&self, cs: ChangesetId) -> Option<ChangesetEntry> {
        self.table.get_spec(cs.id)
    }

    pub fn new() -> (r: Self)
        ensures
            r.wf(),
            r.table.cache is None,
            forall|c: ChangesetId| r.get_spec(c) is None,
    {
        SqlChangesets { table: CachedIdTable::new() }
    }

    pub fn add(&mut self, entry: ChangesetEntry)
        requires
            old(self).wf(),
        ensures
            final(self).wf(),
            forall|c: ChangesetId|
                #![auto]
                final(self).get_spec(c) == if c == entry.cs_id { Some(entry) } else { old(self).get_spec(c) },
    {
        self.table.set(entry.cs_id.id, entry);
        assert forall|c: ChangesetId| #![auto]
            self.get_spec(c) == if c == entry.cs_id { Some(entry) } else { old(self).get_spec(c) } by {
            assert(c.id == entry.cs_id.id ==> c == entry.cs_id);
        }
    }

    /// Reads a commit node through the cache.
    pub fn get(&mut self, cs: ChangesetId) -> (r: Option<ChangesetEntry>)
        requires
            old(self).wf(),
        ensures
            final(self).wf(),
            final(self).table.backend == old(self).table.backend,
            r == old(self).get_spec(cs),
    {
        self.table.get(cs.id)
    }

    /// Reads a commit node from the store itself.
    pub fn peek(&self, cs: ChangesetId) -> (r: Option<ChangesetEntry>)
        ensures
            r == self.get_spec(cs),
    {
        self.table.peek(cs.id)
    }
}

/// A lookup of a commit that the store does not hold.
#[derive(Clone, Copy, Debug, PartialEq, Eq, Structural)]
pub enum FetchError {
    NotFound { cs_id: ChangesetId },
}

/// The parents of a commit node, first parent first.
pub open spec fn parents_of(e: ChangesetEntry) -> Seq<ChangesetId> {
    match (e.parent1, e.parent2) {
        (Some(a), Some(b)) => seq![a, b],
        (Some(a), None) => seq![a],
        (None, Some(b)) => seq![b],
        (None, None) => Seq::empty(),
    }
}

/// Commit-graph traversal over the commit-node store of one repository.
pub struct ChangesetFetcher<'a> {
    pub changesets: &'a SqlChangesets,
    pub repoid: RepositoryId,
}

impl<'a> ChangesetFetcher<'a> {
    /// The node of `cs` if the store holds it for this repository.
    pub open spec fn node(&self, cs: ChangesetId) -> Option<ChangesetEntry> {
        match self.changesets.get_spec(cs) {
            Some(e) => if e.repo_id == self.repoid {
                Some(e)
            } else {
                None
            },
            None => None,
        }
    }

    fn fetch(&self, cs: ChangesetId) -> (r: Result<ChangesetEntry, FetchError>)
        ensures
            match self.node(cs) {
                Some(e) => r == Ok::<ChangesetEntry, FetchError>(e),
                None => r == Err::<ChangesetEntry, FetchError>(FetchError::NotFound { cs_id: cs }),
            },
    {
        match self.changesets.peek(cs) {
            Some(e) => if e.repo_id == self.repoid {
                Ok(e)
            } else {
                Err(FetchError::NotFound { cs_id: cs })
            },
            None => Err(FetchError::NotFound { cs_id: cs }),
        }
    }

    pub fn get_parents(&self, cs: ChangesetId) -> (r: Result<Vec<ChangesetId>, FetchError>)
        ensures
            match self.node(cs) {
                Some(e) => r matches Ok(v) && v@ == parents_of(e),
                None => r == Err::<Vec<ChangesetId>, FetchError>(FetchError::NotFound { cs_id: cs }),
            },
    {
        let e = match self.fetch(cs) {
            Ok(e) => e,
            Err(err) => return Err(err),
        };
        let mut v: Vec<ChangesetId> = Vec::new();
        if let Some(a) = e.parent1 {
            v.push(a);
        }
        if let Some(b) = e.parent2 {
            v.push(b);
        }
        assert(v@ =~= parents_of(e));
        Ok(v)
    }

    pub fn get_generation(&self, cs: ChangesetId) -> (r: Result<u64, FetchError>)
        ensures
            match self.node(cs) {
                Some(e) => r == Ok::<u64, FetchError>(e.gen),
                None => r == Err::<u64, FetchError>(FetchError::NotFound { cs_id: cs }),
            },
    {
        match self.fetch(cs) {
            Ok(e) => Ok(e.gen),
            Err(err) => Err(err),
        }
    }
}

/// The mapping between the two commit naming schemes, kept in both
/// directions, each with the cache that the production profile puts in front.
pub struct SqlBonsaiHgMapping {
    pub to_hg: CachedIdTable<HgChangesetId>,
    pub to_bonsai: CachedIdTable<ChangesetId>,
}

impl SqlBonsaiHgMapping {
    pub open spec fn wf(&self) -> bool {
        self.to_hg.wf() && self.to_bonsai.wf()
    }

    pub open spec fn hg_of(&self, cs: ChangesetId) -> Option<HgChangesetId> {
        self.to_hg.get_spec(cs.id)
    }

    pub open spec fn bonsai_of(&self, hg: HgChangesetId) -> Option<ChangesetId> {
        self.to_bonsai.get_spec(hg.id)
    }

    pub fn new() -> (r: Self)
        ensures
            r.wf(),
            r.to_hg.cache is None,
            r.to_bonsai.cache is None,
            forall|c: ChangesetId| r.hg_of(c) is None,
            forall|h: HgChangesetId| r.bonsai_of(h) is None,
    {
        SqlBonsaiHgMapping { to_hg: CachedIdTable::new(), to_bonsai: CachedIdTable::new() }
    }

    /// Records that `cs` and `hg` name the same commit.
    pub fn add(&mut self, cs: ChangesetId, hg: HgChangesetId)
        requires
            old(self).wf(),
        ensures
            final(self).wf(),
            forall|c: ChangesetId|
                #![auto]
                final(self).hg_of(c) == if c == cs { Some(hg) } else { old(self).hg_of(c) },
            forall|h: HgChangesetId|
                #![auto]
                final(self).bonsai_of(h) == if h == hg { Some(cs) } else { old(self).bonsai_of(h) },
    {
        self.to_hg.set(cs.id, hg);
        self.to_bonsai.set(hg.id, cs);
        assert forall|c: ChangesetId| #![auto]
            self.hg_of(c) == if c == cs { Some(hg) } else { old(self).hg_of(c) } by {
            assert(c.id == cs.id ==> c == cs);
        }
        assert forall|h: HgChangesetId| #![auto]
            self.bonsai_of(h) == if h == hg { Some(cs) } else { old(self).bonsai_of(h) } by {
            assert(h.id == hg.id ==> h == hg);
        }
    }

    pub fn get_hg(&mut self, cs: ChangesetId) -> (r: Option<HgChangesetId>)
        requires
            old(self).wf(),
        ensures
            final(self).wf(),
            final(self).to_hg.backend == old(self).to_hg.backend,
            final(self).to_bonsai == old(self).to_bonsai,
            r == old(self).hg_of(cs),
    {
        self.to_hg.get(cs.id)
    }

    pub fn get_bonsai(&mut self, hg: HgChangesetId) -> (r: Option<ChangesetId>)
        requires
            old(self).wf(),
        ensures
            final(self).wf(),
            final(self).to_bonsai.backend == old(self).to_bonsai.backend,
            final(self).to_hg == old(self).to_hg,
            r == old(self).bonsai_of(hg),
    {
        self.to_bonsai.get(hg.id)
    }
}

/// A file-history pointer: the commit that introduced a file revision and the
/// revision's parents.
#[derive(Clone, Copy, Debug, PartialEq, Eq, Structural)]
pub struct FilenodeInfo {
    pub linknode: ChangesetId,
    pub parent1: Option<u64>,
    pub parent2: Option<u64>,
}

/// The entries of `s` keyed by path characters and file revision.
pub open spec fn filenode_keys(s: Seq<(String, u64, FilenodeInfo)>) -> Seq<((Seq<char>, u64), FilenodeInfo)> {
    s.map_values(|e: (String, u64, FilenodeInfo)| ((e.0@, e.1), e.2))
}

/// A bounded cache of file-history pointers; the oldest entry leaves first.
pub struct FilenodeCache {
    pub capacity: usize,
    pub entries: Vec<(String, u64, FilenodeInfo)>,
}

impl FilenodeCache {
    /// Holds at most `capacity` entries, each agreeing with the store `backend`.
    pub open spec fn coherent(&self, backend: Seq<((Seq<char>, u64), FilenodeInfo)>) -> bool {
        self.entries@.len() <= self.capacity && forall|i: int| 0 <= i < self.entries@.len()
            ==> lookup(backend, (#[trigger] self.entries@[i].0@, self.entries@[i].1)) == Some(
            self.entries@[i].2,
        )
    }

    fn find(&self, path: &String, filenode: u64, Ghost(backend): Ghost<Seq<((Seq<char>, u64), FilenodeInfo)>>) -> (r: Option<FilenodeInfo>)
        requires
            self.coherent(backend),
        ensures
            r matches Some(v) ==> lookup(backend, (path@, filenode)) == Some(v),
    {
        let mut i: usize = 0;
        while i < self.entries.len()
            invariant
                i <= self.entries@.len(),
                self.coherent(backend),
            decreases self.entries@.len() - i,
        {
            if self.entries[i].1 == filenode && self.entries[i].0 == *path {
                return Some(self.entries[i].2);
            }
            i = i + 1;
        }
        None
    }

    fn insert(&mut self, path: String, filenode: u64, info: FilenodeInfo, Ghost(backend): Ghost<Seq<((Seq<char>, u64), FilenodeInfo)>>)
        requires
            old(self).coherent(backend),
            lookup(backend, (path@, filenode)) == Some(info),
        ensures
            final(self).coherent(backend),
            final(self).capacity == old(self).capacity,
    {
        if self.capacity == 0 {
            return;
        }
        if self.entries.len() >= self.capacity {
            let ghost prev = self.entries@;
            self.entries.remove(0);
            assert forall|j: int| 0 <= j < self.entries@.len() implies lookup(
                backend,
                (#[trigger] self.entries@[j].0@, self.entries@[j].1),
            ) == Some(self.entries@[j].2) by {
                assert(self.entries@[j] == prev[j + 1]);
            }
        }
        let ghost prev = self.entries@;
        self.entries.push((path, filenode, info));
        assert forall|j: int| 0 <= j < self.entries@.len() implies lookup(
            backend,
            (#[trigger] self.entries@[j].0@, self.entries@[j].1),
        ) == Some(self.entries@[j].2) by {
            if j < prev.len() {
                assert(self.entries@[j] == prev[j]);
            }
        }
    }

    /// Drops every entry for `(path, filenode)`.
    fn invalidate(&mut self, path: &String, filenode: u64, Ghost(backend): Ghost<Seq<((Seq<char>, u64), FilenodeInfo)>>)
        requires
            old(self).coherent(backend),
        ensures
            final(self).coherent(backend),
            final(self).capacity == old(self).capacity,
            forall|i: int| 0 <= i < final(self).entries@.len() ==> (#[trigger] final(self).entries@[i].0@,
                final(self).entries@[i].1) != (path@, filenode),
    {
        let mut kept: Vec<(String, u64, FilenodeInfo)> = Vec::new();
        let mut i: usize = 0;
        while i < self.entries.len()
            invariant
                i <= self.entries@.len(),
                self.coherent(backend),
                kept@.len() <= i,
                forall|j: int| 0 <= j < kept@.len() ==> (#[trigger] kept@[j].0@, kept@[j].1) != (path@, filenode)
                    && lookup(backend, (kept@[j].0@, kept@[j].1)) == Some(kept@[j].2),
            decreases self.entries@.len() - i,
        {
            if !(self.entries[i].1 == filenode && self.entries[i].0 == *path) {
                let e = (self.entries[i].0.clone(), self.entries[i].1, self.entries[i].2);
                let ghost prev = kept@;
                kept.push(e);
                proof {
                    assert forall|j: int| 0 <= j < kept@.len() implies (#[trigger] kept@[j].0@, kept@[j].1) != (
                        path@,
                        filenode,
                    ) && lookup(backend, (kept@[j].0@, kept@[j].1)) == Some(kept@[j].2) by {
                        if j < prev.len() {
                            assert(kept@[j] == prev[j]);
                        } else {
                            assert(kept@[j].0@ == self.entries@[i as int].0@);
                        }
                    }
                }
            }
            i = i + 1;
        }
        self.entries = kept;
    }
}

/// File-history pointers, keyed by path and file revision, with the cache
/// that the production profile puts in front of them.
pub struct SqlFilenodes {
    pub entries: Vec<(String, u64, FilenodeInfo)>,
    pub cache: Option<FilenodeCache>,
    /// Where the backend lives; threaded through to route reads.
    pub tier: String,
}

impl SqlFilenodes {
    pub open spec fn wf(&self) -> bool {
        self.cache matches Some(c) ==> c.coherent(filenode_keys(self.entries@))
    }

    pub open spec fn get_spec(&self, path: Seq<char>, filenode: u64) -> Option<FilenodeInfo> {
        lookup(filenode_keys(self.entries@), (path, filenode))
    }

    pub fn new(tier: String) -> (r: Self)
        ensures
            r.wf(),
            forall|p: Seq<char>, f: u64| r.get_spec(p, f) is None,
            r.cache is None,
            r.tier == tier,
    {
        SqlFilenodes { entries: Vec::new(), cache: None, tier }
    }

    /// Puts an empty cache of `capacity` entries in front of the store.
    pub fn enable_cache(&mut self, capacity: usize)
        ensures
            final(self).wf(),
            final(self).entries == old(self).entries,
            final(self).tier == old(self).tier,
            final(self).cache matches Some(c) && c.capacity == capacity,
    {
        self.cache = Some(FilenodeCache { capacity, entries: Vec::new() });
    }

    /// Removes the cache.
    pub fn disable_cache(&mut self)
        ensures
            final(self).wf(),
            final(self).entries == old(self).entries,
            final(self).tier == old(self).tier,
            final(self).cache is None,
    {
        self.cache = None;
    }

    /// Writes to the store; the cache drops what it held for the key.
    pub fn add(&mut self, path: String, filenode: u64, info: FilenodeInfo)
        requires
            old(self).wf(),
        ensures
            final(self).wf(),
            final(self).tier == old(self).tier,
            final(self).cache is Some == old(self).cache is Some,
            forall|p: Seq<char>, f: u64|
                #![auto]
                final(self).get_spec(p, f) == if p == path@ && f == filenode {
                    Some(info)
                } else {
                    old(self).get_spec(p, f)
                },
    {
        let ghost k = (path@, filenode);
        let ghost before = filenode_keys(self.entries@);
        if let Some(c) = &mut self.cache {
            c.invalidate(&path, filenode, Ghost(before));
        }
        self.entries.push((path, filenode, info));
        proof {
            assert(filenode_keys(self.entries@) =~= before.push((k, info)));
            assert forall|p: Seq<char>, f: u64| #![auto]
                self.get_spec(p, f) == if p == k.0 && f == filenode {
                    Some(info)
                } else {
                    old(self).get_spec(p, f)
                } by {
                lemma_lookup_push(before, k, info, (p, f));
            }
            if self.cache is Some {
                let c = self.cache->Some_0;
                assert forall|i: int| 0 <= i < c.entries@.len() implies lookup(
                    filenode_keys(self.entries@),
                    (#[trigger] c.entries@[i].0@, c.entries@[i].1),
                ) == Some(c.entries@[i].2) by {
                    lemma_lookup_push(before, k, info, (c.entries@[i].0@, c.entries@[i].1));
                }
            }
        }
    }

    /// Reads a pointer, from the cache when it holds it; a pointer read from
    /// the store is recorded in the cache.
    pub fn get(&mut self, path: &String, filenode: u64) -> (r: Option<FilenodeInfo>)
        requires
            old(self).wf(),
        ensures
            final(self).wf(),
            final(self).entries == old(self).entries,
            final(self).tier == old(self).tier,
            r == old(self).get_spec(path@, filenode),
    {
        let ghost backend = filenode_keys(self.entries@);
        if let Some(c) = &self.cache {
            if let Some(info) = c.find(path, filenode, Ghost(backend)) {
                return Some(info);
            }
        }
        let r = self.peek(path, filenode);
        if let Some(info) = r {
            if let Some(c) = &mut self.cache {
                c.insert(path.clone(), filenode, info, Ghost(backend));
            }
        }
        r
    }

    /// Reads a pointer from the store itself.
    pub fn peek(&self, path: &String, filenode: u64) -> (r: Option<FilenodeInfo>)
        ensures
            r == self.get_spec(path@, filenode),
    {
        let ghost s = filenode_keys(self.entries@);
        let mut i: usize = self.entries.len();
        assert(s.subrange(0, i as int) =~= s);
        while i > 0
            invariant
                i <= self.entries@.len(),
                s == filenode_keys(self.entries@),
                lookup(s, (path@, filenode)) == lookup(s.subrange(0, i as int), (path@, filenode)),
            decreases i,
        {
            assert(s.subrange(0, i as int).drop_last() =~= s.subrange(0, i - 1));
            if self.entries[i - 1].1 == filenode && self.entries[i - 1].0 == *path {
                return Some(self.entries[i - 1].2);
            }
            i = i - 1;
        }
        assert(s.subrange(0, 0) =~= Seq::<((Seq<char>, u64), FilenodeInfo)>::empty());
        None
    }
}

} // verus!
