//! Lookup of the named, pre-allocated cache pools of a process.

use vstd::prelude::*;
use crate::config::{is_missing_pool, ConfigError};
use crate::table::StrTable;

verus! {

/// Pool holding blob contents.
pub const BLOB_POOL: &'static str = "blobstore-blobs";

/// Pool holding blob existence probes.
pub const PRESENCE_POOL: &'static str = "blobstore-presence";

/// Volatile pool of the filenode store.
pub const FILENODES_POOL: &'static str = "filenodes";

/// Volatile pool of the changeset store.
pub const CHANGESETS_POOL: &'static str = "changesets";

/// Volatile pool of the cross-identifier mapping.
pub const BONSAI_HG_MAPPING_POOL: &'static str = "bonsai_hg_mapping";

/// A bounded pool found in the registry.
#[derive(Debug)]
pub struct CachePool {
    pub name: String,
    pub capacity: usize,
    pub volatile: bool,
}

/// The pools allocated at process start, by name, with their capacities.
/// Persistent and volatile pools are looked up separately.
pub struct PoolRegistry {
    pub persistent: StrTable<usize>,
    pub volatile: StrTable<usize>,
}

impl PoolRegistry {
    pub open spec fn capacity_of(&self, name: Seq<char>, volatile: bool) -> Option<usize> {
        if volatile {
            self.volatile.get_spec(name)
        } else {
            self.persistent.get_spec(name)
        }
    }

    pub fn new() -> (r: Self)
        ensures
            forall|n: Seq<char>, v: bool| r.capacity_of(n, v) is None,
    {
        PoolRegistry { persistent: StrTable::new(), volatile: StrTable::new() }
    }

    /// Records a pool allocated at process start.
    pub fn register(&mut self, name: String, capacity: usize, volatile: bool)
        ensures
            forall|n: Seq<char>, v: bool|
                #![auto]
                final(self).capacity_of(n, v) == if n == name@ && v == volatile {
                    Some(capacity)
                } else {
                    old(self).capacity_of(n, v)
                },
    {
        if volatile {
            self.volatile.set(name, capacity);
        } else {
            self.persistent.set(name, capacity);
        }
    }

    fn lookup(&self, name: &str, volatile: bool) -> (r: Result<CachePool, ConfigError>)
        ensures
            match r {
                Ok(p) => self.capacity_of(name@, volatile) == Some(p.capacity) && p.name@ == name@
                    && p.volatile == volatile,
                Err(e) => self.capacity_of(name@, volatile) is None && is_missing_pool(e, name@),
            },
    {
        let key = name.to_owned();
        let found = if volatile {
            self.volatile.get(&key)
        } else {
            self.persistent.get(&key)
        };
        match found {
            Some(c) => Ok(CachePool { name: key, capacity: *c, volatile }),
            None => Err(ConfigError::MissingPool { name: key }),
        }
    }

    /// Looks up a persistent pool; a missing one is a configuration error.
    pub fn get_pool(&self, name: &str) -> (r: Result<CachePool, ConfigError>)
        ensures
            match r {
                Ok(p) => self.capacity_of(name@, false) == Some(p.capacity) && p.name@ == name@
                    && !p.volatile,
                Err(e) => self.capacity_of(name@, false) is None && is_missing_pool(e, name@),
            },
    {
        self.lookup(name, false)
    }

    /// Looks up a volatile pool; a missing one is a configuration error.
    pub fn get_volatile_pool(&self, name: &str) -> (r: Result<CachePool, ConfigError>)
        ensures
            match r {
                Ok(p) => self.capacity_of(name@, true) == Some(p.capacity) && p.name@ == name@
                    && p.volatile,
                Err(e) => self.capacity_of(name@, true) is None && is_missing_pool(e, name@),
            },
    {
        self.lookup(name, true)
    }
}

} // verus!
