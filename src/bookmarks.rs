//! Bookmarks: named references to commits, with an optional time-limited cache.

use vstd::prelude::*;
use crate::metadata::ChangesetId;
use crate::table::{str_keys, StrTable};

verus! {

/// A bookmark write that was refused.
#[derive(Debug)]
pub enum BookmarkError {
    /// `create` found the bookmark already set.
    AlreadyExists { name: String },
    /// `update` found the bookmark pointing elsewhere than expected.
    Mismatch { name: String },
}

/// The bookmark store.
pub struct SqlBookmarks {
    pub table: StrTable<ChangesetId>,
}

impl SqlBookmarks {
    pub open spec fn get_spec(&self, name: Seq<char>) -> Option<ChangesetId> {
        self.table.get_spec(name)
    }

    pub fn new() -> (r: Self)
        ensures
            forall|n: Seq<char>| r.get_spec(n) is None,
    {
        SqlBookmarks { table: StrTable::new() }
    }

    pub fn get(&self, name: &String) -> (r: Option<ChangesetId>)
        ensures
            r == self.get_spec(name@),
    {
        match self.table.get(name) {
            Some(c) => Some(*c),
            None => None,
        }
    }

    /// Points `name` at `target`, whatever it pointed at before.
    pub fn force_set(&mut self, name: String, target: ChangesetId)
        ensures
            forall|n: Seq<char>|
                #![auto]
                final(self).get_spec(n) == if n == name@ { Some(target) } else { old(self).get_spec(n) },
    {
        self.table.set(name, target);
    }

    fn copy_entries(&self) -> (r: Vec<(String, ChangesetId)>)
        ensures
            r@ == self.table.entries@,
    {
        let mut r: Vec<(String, ChangesetId)> = Vec::new();
        let mut i: usize = 0;
        while i < self.table.entries.len()
            invariant
                i <= self.table.entries@.len(),
                r@ == self.table.entries@.subrange(0, i as int),
            decreases self.table.entries@.len() - i,
        {
            let e = (self.table.entries[i].0.clone(), self.table.entries[i].1);
            r.push(e);
            i = i + 1;
            assert(r@ =~= self.table.entries@.subrange(0, i as int));
        }
        assert(self.table.entries@.subrange(0, i as int) =~= self.table.entries@);
        r
    }
}

/// A copy of the bookmark store taken at `loaded_at`.
pub struct BookmarkSnapshot {
    pub loaded_at: u64,
    pub table: StrTable<ChangesetId>,
}

/// The snapshot loaded at `loaded_at` may serve a read at `now`: the time
/// since loading is under `ttl`.
pub open spec fn fresh(loaded_at: u64, ttl: u64, now: u64) -> bool {
    loaded_at <= now && now - loaded_at < ttl
}

/// Bookmarks with a cache: a read within `ttl` of the last load is served
/// from the snapshot; after that the store is read again and the snapshot
/// reloaded. Without a `ttl` nothing is cached. Times are supplied by the
/// caller, in any unit, from a monotonic clock.
pub struct CachedBookmarks {
    pub backend: SqlBookmarks,
    pub ttl: Option<u64>,
    pub snapshot: Option<BookmarkSnapshot>,
}

impl CachedBookmarks {
    /// A snapshot, when there is one, is the store's current contents.
    pub open spec fn wf(&self) -> bool {
        self.snapshot matches Some(s) ==> s.table.entries@ == self.backend.table.entries@
    }

    pub open spec fn get_spec(&self, name: Seq<char>) -> Option<ChangesetId> {
        self.backend.get_spec(name)
    }

    /// When the snapshot, if any, was loaded.
    pub open spec fn loaded_at(&self) -> Option<u64> {
        match self.snapshot {
            Some(s) => Some(s.loaded_at),
            None => None,
        }
    }

    /// A read at `now` is served from the snapshot.
    pub open spec fn serves_from_snapshot(&self, now: u64) -> bool {
        match (self.ttl, self.snapshot) {
            (Some(t), Some(s)) => fresh(s.loaded_at, t, now),
            _ => false,
        }
    }

    pub fn new(backend: SqlBookmarks, ttl: Option<u64>) -> (r: Self)
        ensures
            r.wf(),
            r.ttl == ttl,
            r.snapshot is None,
            r.backend == backend,
    {
        CachedBookmarks { backend, ttl, snapshot: None }
    }

    /// Reads `name` at time `now`. The answer is the store's, whichever of
    /// the snapshot and the store served it.
    pub fn get(&mut self, name: &String, now: u64) -> (r: Option<ChangesetId>)
        requires
            old(self).wf(),
        ensures
            final(self).wf(),
            final(self).ttl == old(self).ttl,
            forall|n: Seq<char>| final(self).get_spec(n) == old(self).get_spec(n),
            r == old(self).get_spec(name@),
            old(self).serves_from_snapshot(now) ==> final(self).loaded_at() == old(self).loaded_at(),
            old(self).ttl is Some && !old(self).serves_from_snapshot(now) ==> final(self).loaded_at()
                == Some(now),
    {
        let ttl = match self.ttl {
            None => return self.backend.get(name),
            Some(t) => t,
        };
        if let Some(s) = &self.snapshot {
            if s.loaded_at <= now && now - s.loaded_at < ttl {
                proof {
                    assert(str_keys(s.table.entries@) == str_keys(self.backend.table.entries@));
                }
                return match s.table.get(name) {
                    Some(c) => Some(*c),
                    None => None,
                };
            }
        }
        let entries = self.backend.copy_entries();
        let table = StrTable { entries };
        let r = match table.get(name) {
            Some(c) => Some(*c),
            None => None,
        };
        proof {
            assert(str_keys(table.entries@) == str_keys(self.backend.table.entries@));
        }
        self.snapshot = Some(BookmarkSnapshot { loaded_at: now, table });
        r
    }

    /// Creates `name`; refused if it is already set.
    pub fn create(&mut self, name: String, target: ChangesetId) -> (r: Result<(), BookmarkError>)
        requires
            old(self).wf(),
        ensures
            final(self).wf(),
            final(self).ttl == old(self).ttl,
            match old(self).get_spec(name@) {
                Some(_) => r is Err && forall|n: Seq<char>| final(self).get_spec(n) == old(self).get_spec(n),
                None => r is Ok && forall|n: Seq<char>|
                    #![auto]
                    final(self).get_spec(n) == if n == name@ { Some(target) } else { old(self).get_spec(n) },
            },
    {
        if self.backend.get(&name).is_some() {
            return Err(BookmarkError::AlreadyExists { name });
        }
        self.set(name, target);
        Ok(())
    }

    /// Moves `name` from `from` to `to`; refused unless it points at `from`.
    pub fn update(&mut self, name: String, from: ChangesetId, to: ChangesetId) -> (r: Result<(), BookmarkError>)
        requires
            old(self).wf(),
        ensures
            final(self).wf(),
            final(self).ttl == old(self).ttl,
            if old(self).get_spec(name@) == Some(from) {
                r is Ok && forall|n: Seq<char>|
                    #![auto]
                    final(self).get_spec(n) == if n == name@ { Some(to) } else { old(self).get_spec(n) }
            } else {
                r is Err && forall|n: Seq<char>| final(self).get_spec(n) == old(self).get_spec(n)
            },
    {
        match self.backend.get(&name) {
            Some(c) => if c == from {
                self.set(name, to);
                Ok(())
            } else {
                Err(BookmarkError::Mismatch { name })
            },
            None => Err(BookmarkError::Mismatch { name }),
        }
    }

    /// Points `name` at `target`. The snapshot is dropped, so no later read
    /// sees the value from before the write.
    pub fn set(&mut self, name: String, target: ChangesetId)
        requires
            old(self).wf(),
        ensures
            final(self).wf(),
            final(self).ttl == old(self).ttl,
            final(self).snapshot is None,
            forall|n: Seq<char>|
                #![auto]
                final(self).get_spec(n) == if n == name@ { Some(target) } else { old(self).get_spec(n) },
    {
        self.backend.force_set(name, target);
        self.snapshot = None;
    }
}

} // verus!
