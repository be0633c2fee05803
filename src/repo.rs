//! The repository handle and its assembly from opened stores.

use vstd::prelude::*;
use crate::blobstore::{BlobCache, CachedBlobstore, LocalTier, MemBlob, PresenceCache, RepoBlobstore};
use crate::bookmarks::{CachedBookmarks, SqlBookmarks};
use crate::config::{
    is_local, is_missing_pool, profile_of, select_profile, AssemblyError, Caching, Censoring, ConfigError, Profile,
    RepositoryId, StateOpenError, StorageConfig,
};
use crate::lease::{acquire_outcome, Lease, LeaseOutcome, LeaseTable, HG_GENERATION_LEASE};
use crate::metadata::{
    ChangesetFetcher, ChangesetId, HgChangesetId, SqlBonsaiHgMapping, SqlChangesets, SqlFilenodes,
};
use crate::pools::{
    PoolRegistry, BLOB_POOL, BONSAI_HG_MAPPING_POOL, CHANGESETS_POOL, FILENODES_POOL, PRESENCE_POOL,
};
use crate::table::StrTable;

verus! {

/// Entries kept by the distributed cache tier of one handle.
pub const REMOTE_CACHE_ENTRIES: usize = 1000000;

/// The outcomes of opening the four metadata stores.
pub struct MetadataStores {
    pub bookmarks: Result<SqlBookmarks, String>,
    pub filenodes: Result<SqlFilenodes, String>,
    pub changesets: Result<SqlChangesets, String>,
    pub bonsai_hg_mapping: Result<SqlBonsaiHgMapping, String>,
}

/// The outcomes of every open that assembly waits for. `censored_blobs` is
/// the banned-content table, key and reason; it is read only when censoring
/// is enabled, and otherwise should not have been fetched at all.
pub struct OpenedStores {
    pub blobstore: Result<MemBlob, String>,
    pub censored_blobs: Result<Vec<(String, String)>, String>,
    pub metadata: MetadataStores,
}

/// The stage at which assembly stops.
#[derive(Clone, Copy, Debug, PartialEq, Eq, Structural)]
pub enum FailureStage {
    CachingWithLocalDb,
    BlobstoreOpen,
    CensoredTable,
    MissingPool,
    StateOpen(StateOpenError),
}

pub open spec fn stage_of(e: AssemblyError) -> FailureStage {
    match e {
        AssemblyError::Config(ConfigError::CachingWithLocalDb) => FailureStage::CachingWithLocalDb,
        AssemblyError::Config(ConfigError::MissingPool { .. }) => FailureStage::MissingPool,
        AssemblyError::StateOpen { store, .. } => FailureStage::StateOpen(store),
        AssemblyError::BlobstoreOpen { .. } => FailureStage::BlobstoreOpen,
        AssemblyError::CensoredTable { .. } => FailureStage::CensoredTable,
    }
}

/// The first pool of the production profile that the registry lacks, in the
/// order they are looked up.
pub open spec fn first_missing_pool(pools: PoolRegistry) -> Option<Seq<char>> {
    if pools.capacity_of(BLOB_POOL@, false) is None {
        Some(BLOB_POOL@)
    } else if pools.capacity_of(PRESENCE_POOL@, false) is None {
        Some(PRESENCE_POOL@)
    } else if pools.capacity_of(FILENODES_POOL@, true) is None {
        Some(FILENODES_POOL@)
    } else if pools.capacity_of(CHANGESETS_POOL@, true) is None {
        Some(CHANGESETS_POOL@)
    } else if pools.capacity_of(BONSAI_HG_MAPPING_POOL@, true) is None {
        Some(BONSAI_HG_MAPPING_POOL@)
    } else {
        None
    }
}

/// The first metadata store that failed to open, in a fixed order.
pub open spec fn first_failed_store(m: MetadataStores) -> Option<StateOpenError> {
    if m.bookmarks is Err {
        Some(StateOpenError::Bookmarks)
    } else if m.filenodes is Err {
        Some(StateOpenError::Filenodes)
    } else if m.changesets is Err {
        Some(StateOpenError::Changesets)
    } else if m.bonsai_hg_mapping is Err {
        Some(StateOpenError::BonsaiHgMapping)
    } else {
        None
    }
}

/// The cause carried by the open of `store` in `m`.
pub open spec fn failure_cause(m: MetadataStores, store: StateOpenError) -> String {
    match store {
        StateOpenError::Bookmarks => m.bookmarks->Err_0,
        StateOpenError::Filenodes => m.filenodes->Err_0,
        StateOpenError::Changesets => m.changesets->Err_0,
        StateOpenError::BonsaiHgMapping => m.bonsai_hg_mapping->Err_0,
    }
}

/// Where assembly stops, if it does: the profile first, then the blob store
/// and the banned-content table, then the pools (production only), then the
/// metadata stores.
pub open spec fn failure_stage(
    local_db: bool,
    caching: Caching,
    censoring: Censoring,
    pools: PoolRegistry,
    o: OpenedStores,
) -> Option<FailureStage> {
    match profile_of(local_db, caching) {
        None => Some(FailureStage::CachingWithLocalDb),
        Some(p) => if o.blobstore is Err {
            Some(FailureStage::BlobstoreOpen)
        } else if censoring == Censoring::Enabled && o.censored_blobs is Err {
            Some(FailureStage::CensoredTable)
        } else if p == Profile::Production && first_missing_pool(pools) is Some {
            Some(FailureStage::MissingPool)
        } else {
            match first_failed_store(o.metadata) {
                Some(s) => Some(FailureStage::StateOpen(s)),
                None => None,
            }
        },
    }
}

/// `e` reports the pool named `name` as missing.
pub open spec fn reports_missing_pool(e: AssemblyError, name: Seq<char>) -> bool {
    match e {
        AssemblyError::Config(c) => is_missing_pool(c, name),
        _ => false,
    }
}

/// What an error says beyond its stage: the missing pool's name, or the cause
/// handed in by the open that failed.
pub open spec fn error_detail(e: AssemblyError, pools: PoolRegistry, o: OpenedStores) -> bool {
    match e {
        AssemblyError::Config(ConfigError::MissingPool { name }) => first_missing_pool(pools) == Some(name@),
        AssemblyError::Config(ConfigError::CachingWithLocalDb) => true,
        AssemblyError::StateOpen { store, cause } => cause == failure_cause(o.metadata, store),
        AssemblyError::BlobstoreOpen { cause } => cause == o.blobstore->Err_0,
        AssemblyError::CensoredTable { cause } => cause == o.censored_blobs->Err_0,
    }
}

/// What a caller looking for a commit's legacy identifier does next.
#[derive(Clone, Copy, Debug, PartialEq, Eq, Structural)]
pub enum HgDerivation {
    /// The mapping holds it.
    Known(HgChangesetId),
    /// This caller holds the lease: derive it, then `finish_hg_derivation`.
    Derive,
    /// Another caller is deriving it: read the mapping again later.
    Wait,
}

/// What asking for lease `k` gives, `held` being `None` for a lease that
/// never coordinates.
pub open spec fn lease_outcome(held: Option<Set<(Seq<char>, Seq<char>)>>, k: (Seq<char>, Seq<char>)) -> LeaseOutcome {
    match held {
        None => LeaseOutcome::Won,
        Some(h) => acquire_outcome(h, k),
    }
}

/// The leases held after asking for `k`.
pub open spec fn lease_after(held: Option<Set<(Seq<char>, Seq<char>)>>, k: (Seq<char>, Seq<char>)) -> Option<Set<(Seq<char>, Seq<char>)>> {
    match held {
        None => None,
        Some(h) => Some(h.insert(k)),
    }
}

/// The leases held after giving up `k`.
pub open spec fn lease_released(held: Option<Set<(Seq<char>, Seq<char>)>>, k: (Seq<char>, Seq<char>)) -> Option<Set<(Seq<char>, Seq<char>)>> {
    match held {
        None => None,
        Some(h) => Some(h.remove(k)),
    }
}

/// An assembled repository: a blob store and four metadata stores scoped to
/// one repository, and the lease its derivations run under. It is not
/// reassembled after construction.
pub struct BlobRepo {
    pub profile: Profile,
    pub repoid: RepositoryId,
    pub blobstore: RepoBlobstore,
    pub bookmarks: CachedBookmarks,
    pub filenodes: SqlFilenodes,
    pub changesets: SqlChangesets,
    pub bonsai_hg_mapping: SqlBonsaiHgMapping,
    pub lease: Lease,
}

impl BlobRepo {
    pub open spec fn wf(&self) -> bool {
        &&& self.blobstore.wf()
        &&& self.bookmarks.wf()
        &&& self.lease.wf()
        &&& self.filenodes.wf()
        &&& self.changesets.wf()
        &&& self.bonsai_hg_mapping.wf()
        &&& self.blobstore.repoid == self.repoid
    }

    /// First step of finding the legacy identifier of `cs`: known already, or
    /// else the lease on `key` (the caller's name for `cs`) under the mapping
    /// derivation namespace decides who derives it.
    pub fn start_hg_derivation(&mut self, cs: ChangesetId, key: &String) -> (r: HgDerivation)
        requires
            old(self).wf(),
        ensures
            final(self).wf(),
            forall|c: ChangesetId|
                #![auto]
                final(self).bonsai_hg_mapping.hg_of(c) == old(self).bonsai_hg_mapping.hg_of(c),
            forall|h: HgChangesetId|
                #![auto]
                final(self).bonsai_hg_mapping.bonsai_of(h) == old(self).bonsai_hg_mapping.bonsai_of(h),
            final(self).blobstore == old(self).blobstore,
            match old(self).bonsai_hg_mapping.hg_of(cs) {
                Some(h) => r == HgDerivation::Known(h) && final(self).lease.held() == old(
                    self,
                ).lease.held(),
                None => final(self).lease.held() == lease_after(
                    old(self).lease.held(),
                    (HG_GENERATION_LEASE@, key@),
                ) && r == if lease_outcome(old(self).lease.held(), (HG_GENERATION_LEASE@, key@))
                    == LeaseOutcome::Won {
                    HgDerivation::Derive
                } else {
                    HgDerivation::Wait
                },
            },
    {
        if let Some(h) = self.bonsai_hg_mapping.get_hg(cs) {
            return HgDerivation::Known(h);
        }
        let namespace = HG_GENERATION_LEASE.to_owned();
        match self.lease.acquire(&namespace, key) {
            LeaseOutcome::Won => HgDerivation::Derive,
            LeaseOutcome::Lost => HgDerivation::Wait,
        }
    }

    /// Last step of a derivation that won the lease: records that `cs` and
    /// `hg` name the same commit and gives the lease up.
    pub fn finish_hg_derivation(&mut self, cs: ChangesetId, hg: HgChangesetId, key: &String)
        requires
            old(self).wf(),
        ensures
            final(self).wf(),
            final(self).blobstore == old(self).blobstore,
            forall|c: ChangesetId|
                #![auto]
                final(self).bonsai_hg_mapping.hg_of(c) == if c == cs {
                    Some(hg)
                } else {
                    old(self).bonsai_hg_mapping.hg_of(c)
                },
            forall|h: HgChangesetId|
                #![auto]
                final(self).bonsai_hg_mapping.bonsai_of(h) == if h == hg {
                    Some(cs)
                } else {
                    old(self).bonsai_hg_mapping.bonsai_of(h)
                },
            final(self).lease.held() == lease_released(old(self).lease.held(), (HG_GENERATION_LEASE@, key@)),
    {
        self.bonsai_hg_mapping.add(cs, hg);
        let namespace = HG_GENERATION_LEASE.to_owned();
        self.lease.release(&namespace, key);
    }

    /// A fresh commit-graph traversal over this repository's commit nodes.
    pub fn changeset_fetcher(&self) -> (r: ChangesetFetcher<'_>)
        ensures
            r.changesets == &self.changesets,
            r.repoid == self.repoid,
    {
        ChangesetFetcher { changesets: &self.changesets, repoid: self.repoid }
    }
}

/// The banned-content table that the overlay uses: none when censoring is off.
pub open spec fn censored_table(censoring: Censoring, o: OpenedStores) -> Option<StrTable<String>> {
    match censoring {
        Censoring::Enabled => Some(StrTable { entries: o.censored_blobs->Ok_0 }),
        Censoring::Disabled => None,
    }
}

/// `repo` is the handle built under `profile` from a physical store holding
/// `blobs`, the banned-content table `censored` and the opened stores `m`.
pub open spec fn assembled(
    repo: BlobRepo,
    profile: Profile,
    repoid: RepositoryId,
    blobs: Map<Seq<char>, Seq<u8>>,
    censored: Option<StrTable<String>>,
    censored_sink: Option<String>,
    bookmarks_cache_ttl: Option<u64>,
    pools: PoolRegistry,
    m: MetadataStores,
) -> bool {
    &&& repo.wf()
    &&& repo.profile == profile
    &&& repo.repoid == repoid
    &&& repo.blobstore.store.contents() == blobs
    &&& repo.blobstore.censored == censored
    &&& repo.blobstore.censored_sink == censored_sink
    &&& repo.blobstore.censored_events@.len() == 0
    &&& repo.bookmarks.backend == m.bookmarks->Ok_0
    &&& repo.bookmarks.snapshot is None
    &&& repo.filenodes.entries == m.filenodes->Ok_0.entries
    &&& repo.changesets.table.backend == m.changesets->Ok_0.table.backend
    &&& repo.bonsai_hg_mapping.to_hg.backend == m.bonsai_hg_mapping->Ok_0.to_hg.backend
    &&& repo.bonsai_hg_mapping.to_bonsai.backend == m.bonsai_hg_mapping->Ok_0.to_bonsai.backend
    &&& match profile {
        Profile::Development => {
            &&& repo.blobstore.store.remote is None
            &&& repo.blobstore.store.local is None
            &&& repo.bookmarks.ttl is None
            &&& repo.filenodes.cache is None
            &&& repo.changesets.table.cache is None
            &&& repo.bonsai_hg_mapping.to_hg.cache is None
            &&& repo.bonsai_hg_mapping.to_bonsai.cache is None
            &&& repo.lease.held() is None
        },
        Profile::Production => {
            &&& repo.blobstore.store.remote is Some
            &&& repo.blobstore.store.local matches Some(l) && Some(l.blobs.capacity) == pools.capacity_of(
                BLOB_POOL@,
                false,
            ) && Some(l.presence.capacity) == pools.capacity_of(PRESENCE_POOL@, false)
            &&& repo.bookmarks.ttl == bookmarks_cache_ttl
            &&& repo.filenodes.cache matches Some(c) && Some(c.capacity) == pools.capacity_of(
                FILENODES_POOL@,
                true,
            )
            &&& repo.changesets.table.cache matches Some(c) && Some(c.capacity) == pools.capacity_of(
                CHANGESETS_POOL@,
                true,
            )
            &&& repo.bonsai_hg_mapping.to_hg.cache matches Some(c) && Some(c.capacity)
                == pools.capacity_of(BONSAI_HG_MAPPING_POOL@, true)
            &&& repo.bonsai_hg_mapping.to_bonsai.cache matches Some(c) && Some(c.capacity)
                == pools.capacity_of(BONSAI_HG_MAPPING_POOL@, true)
            &&& repo.lease.held() == Some(Set::<(Seq<char>, Seq<char>)>::empty())
        },
    }
}

/// Takes the four metadata stores, or the first failure in a fixed order.
fn open_metadata(m: MetadataStores) -> (r: Result<
    (SqlBookmarks, SqlFilenodes, SqlChangesets, SqlBonsaiHgMapping),
    AssemblyError,
>)
    ensures
        match first_failed_store(m) {
            Some(s) => r matches Err(e) && e == (AssemblyError::StateOpen {
                store: s,
                cause: failure_cause(m, s),
            }),
            None => r == Ok::<_, AssemblyError>(
                (
                    m.bookmarks->Ok_0,
                    m.filenodes->Ok_0,
                    m.changesets->Ok_0,
                    m.bonsai_hg_mapping->Ok_0,
                ),
            ),
        },
{
    let MetadataStores { bookmarks, filenodes, changesets, bonsai_hg_mapping } = m;
    let bookmarks = match bookmarks {
        Ok(b) => b,
        Err(cause) => return Err(AssemblyError::StateOpen { store: StateOpenError::Bookmarks, cause }),
    };
    let filenodes = match filenodes {
        Ok(f) => f,
        Err(cause) => return Err(AssemblyError::StateOpen { store: StateOpenError::Filenodes, cause }),
    };
    let changesets = match changesets {
        Ok(c) => c,
        Err(cause) => return Err(AssemblyError::StateOpen { store: StateOpenError::Changesets, cause }),
    };
    let bonsai_hg_mapping = match bonsai_hg_mapping {
        Ok(b) => b,
        Err(cause) => return Err(
            AssemblyError::StateOpen { store: StateOpenError::BonsaiHgMapping, cause },
        ),
    };
    Ok((bookmarks, filenodes, changesets, bonsai_hg_mapping))
}

/// Builds a handle with purely local behaviour: no cache tier, no pool
/// lookup, a lease that never coordinates.
pub fn new_development(
    blobstore: MemBlob,
    censored: Option<StrTable<String>>,
    scuba_censored_table: Option<String>,
    repoid: RepositoryId,
    metadata: MetadataStores,
) -> (r: Result<BlobRepo, AssemblyError>)
    ensures
        match first_failed_store(metadata) {
            Some(s) => r matches Err(e) && e == (AssemblyError::StateOpen {
                store: s,
                cause: failure_cause(metadata, s),
            }),
            None => r matches Ok(repo) && forall|pools: PoolRegistry, ttl: Option<u64>|
                assembled(
                    repo,
                    Profile::Development,
                    repoid,
                    blobstore@,
                    censored,
                    scuba_censored_table,
                    ttl,
                    pools,
                    metadata,
                ),
        },
{
    let (bookmarks, mut filenodes, mut changesets, mut bonsai_hg_mapping) = match open_metadata(
        metadata,
    ) {
        Ok(stores) => stores,
        Err(e) => return Err(e),
    };
    filenodes.disable_cache();
    changesets.table.disable_cache();
    bonsai_hg_mapping.to_hg.disable_cache();
    bonsai_hg_mapping.to_bonsai.disable_cache();
    let store = CachedBlobstore::uncached(blobstore);
    let repo = BlobRepo {
        profile: Profile::Development,
        repoid,
        blobstore: RepoBlobstore {
            store,
            censored,
            repoid,
            censored_sink: scuba_censored_table,
            censored_events: Vec::new(),
        },
        bookmarks: CachedBookmarks::new(bookmarks, None),
        filenodes,
        changesets,
        bonsai_hg_mapping,
        lease: Lease::Dummy,
    };
    Ok(repo)
}

/// Builds a handle with every cache tier: the distributed and process-local
/// tiers in front of the blob store, a pool in front of each metadata store,
/// a time-limited bookmark cache when `bookmarks_cache_ttl` is set, and a
/// distributed lease. The pools are looked up before the metadata stores
/// are taken.
pub fn new_production(
    blobstore: MemBlob,
    censored: Option<StrTable<String>>,
    scuba_censored_table: Option<String>,
    repoid: RepositoryId,
    bookmarks_cache_ttl: Option<u64>,
    pools: &PoolRegistry,
    metadata: MetadataStores,
) -> (r: Result<BlobRepo, AssemblyError>)
    ensures
        match first_missing_pool(*pools) {
            Some(n) => r matches Err(e) && reports_missing_pool(e, n),
            None => match first_failed_store(metadata) {
                Some(s) => r matches Err(e) && e == (AssemblyError::StateOpen {
                    store: s,
                    cause: failure_cause(metadata, s),
                }),
                None => r matches Ok(repo) && assembled(
                    repo,
                    Profile::Production,
                    repoid,
                    blobstore@,
                    censored,
                    scuba_censored_table,
                    bookmarks_cache_ttl,
                    *pools,
                    metadata,
                ),
            },
        },
{
    let blob_pool = match pools.get_pool(BLOB_POOL) {
        Ok(p) => p,
        Err(e) => return Err(AssemblyError::Config(e)),
    };
    let presence_pool = match pools.get_pool(PRESENCE_POOL) {
        Ok(p) => p,
        Err(e) => return Err(AssemblyError::Config(e)),
    };
    let filenodes_pool = match pools.get_volatile_pool(FILENODES_POOL) {
        Ok(p) => p,
        Err(e) => return Err(AssemblyError::Config(e)),
    };
    let changesets_pool = match pools.get_volatile_pool(CHANGESETS_POOL) {
        Ok(p) => p,
        Err(e) => return Err(AssemblyError::Config(e)),
    };
    let bonsai_hg_mapping_pool = match pools.get_volatile_pool(BONSAI_HG_MAPPING_POOL) {
        Ok(p) => p,
        Err(e) => return Err(AssemblyError::Config(e)),
    };
    let (bookmarks, mut filenodes, mut changesets, mut bonsai_hg_mapping) = match open_metadata(
        metadata,
    ) {
        Ok(stores) => stores,
        Err(e) => return Err(e),
    };
    let local = LocalTier {
        blobs: BlobCache::new(blob_pool.capacity),
        presence: PresenceCache::new(presence_pool.capacity),
    };
    let store = CachedBlobstore {
        backend: blobstore,
        remote: Some(BlobCache::new(REMOTE_CACHE_ENTRIES)),
        local: Some(local),
    };
    filenodes.enable_cache(filenodes_pool.capacity);
    changesets.table.enable_cache(changesets_pool.capacity);
    bonsai_hg_mapping.to_hg.enable_cache(bonsai_hg_mapping_pool.capacity);
    bonsai_hg_mapping.to_bonsai.enable_cache(bonsai_hg_mapping_pool.capacity);
    let lease = Lease::Distributed(LeaseTable::new());
    let repo = BlobRepo {
        profile: Profile::Production,
        repoid,
        blobstore: RepoBlobstore {
            store,
            censored,
            repoid,
            censored_sink: scuba_censored_table,
            censored_events: Vec::new(),
        },
        bookmarks: CachedBookmarks::new(bookmarks, bookmarks_cache_ttl),
        filenodes,
        changesets,
        bonsai_hg_mapping,
        lease,
    };
    Ok(repo)
}

/// What the caller must open before assembly: the profile, and whether the
/// banned-content table is fetched at all.
#[derive(Clone, Copy, Debug, PartialEq, Eq, Structural)]
pub struct OpenPlan {
    pub profile: Profile,
    pub fetch_censored_table: bool,
}

/// Selects the profile from the metadata backend and the caching choice.
/// The banned-content table is fetched only when censoring is enabled.
pub fn plan_open(storage_config: &StorageConfig, caching: Caching, censoring: Censoring) -> (r: Result<
    OpenPlan,
    AssemblyError,
>)
    ensures
        match profile_of(is_local(storage_config.dbconfig), caching) {
            Some(p) => r == Ok::<OpenPlan, AssemblyError>(
                OpenPlan { profile: p, fetch_censored_table: censoring == Censoring::Enabled },
            ),
            None => r matches Err(e) && stage_of(e) == FailureStage::CachingWithLocalDb,
        },
{
    match select_profile(&storage_config.dbconfig, caching) {
        Ok(profile) => Ok(
            OpenPlan { profile, fetch_censored_table: matches!(censoring, Censoring::Enabled) },
        ),
        Err(e) => Err(AssemblyError::Config(e)),
    }
}

/// Assembles a repository handle from the outcomes of the opens that
/// `plan_open` asked for. A local metadata database gives the development
/// profile; a remote one the production profile unless caching is off.
/// Assembly stops at the first failure that `failure_stage` names and never
/// returns a partial handle.
pub fn open_blobrepo(
    storage_config: &StorageConfig,
    repoid: RepositoryId,
    caching: Caching,
    bookmarks_cache_ttl: Option<u64>,
    censoring: Censoring,
    scuba_censored_table: Option<String>,
    pools: &PoolRegistry,
    opened: OpenedStores,
) -> (r: Result<BlobRepo, AssemblyError>)
    ensures
        match failure_stage(is_local(storage_config.dbconfig), caching, censoring, *pools, opened) {
            Some(s) => r matches Err(e) && stage_of(e) == s && error_detail(e, *pools, opened),
            None => r matches Ok(repo) && assembled(
                repo,
                profile_of(is_local(storage_config.dbconfig), caching)->0,
                repoid,
                opened.blobstore->Ok_0@,
                censored_table(censoring, opened),
                scuba_censored_table,
                bookmarks_cache_ttl,
                *pools,
                opened.metadata,
            ),
        },
{
    let profile = match select_profile(&storage_config.dbconfig, caching) {
        Ok(p) => p,
        Err(e) => return Err(AssemblyError::Config(e)),
    };
    let OpenedStores { blobstore, censored_blobs, metadata } = opened;
    let blobstore = match blobstore {
        Ok(b) => b,
        Err(cause) => return Err(AssemblyError::BlobstoreOpen { cause }),
    };
    let censored = match censoring {
        Censoring::Enabled => match censored_blobs {
            Ok(entries) => Some(StrTable { entries }),
            Err(cause) => return Err(AssemblyError::CensoredTable { cause }),
        },
        Censoring::Disabled => None,
    };
    match profile {
        Profile::Development => new_development(
            blobstore,
            censored,
            scuba_censored_table,
            repoid,
            metadata,
        ),
        Profile::Production => new_production(
            blobstore,
            censored,
            scuba_censored_table,
            repoid,
            bookmarks_cache_ttl,
            pools,
            metadata,
        ),
    }
}

/// The contents of the given blob store, or of an empty one.
pub open spec fn initial_blobs(blobstore: Option<MemBlob>) -> Map<Seq<char>, Seq<u8>> {
    match blobstore {
        Some(b) => b@,
        None => Map::empty(),
    }
}

/// `repo` is a development handle of repository 0 without censoring, over
/// `blobs` and empty bookmarks.
pub open spec fn is_empty_development(repo: BlobRepo, blobs: Map<Seq<char>, Seq<u8>>) -> bool {
    &&& repo.wf()
    &&& repo.profile == Profile::Development
    &&& repo.repoid == (RepositoryId { id: 0 })
    &&& repo.blobstore.censored is None
    &&& repo.blobstore.store.contents() == blobs
    &&& forall|n: Seq<char>| repo.bookmarks.get_spec(n) is None
    &&& repo.bookmarks.ttl is None
    &&& repo.lease.held() is None
}

/// A development handle over empty in-memory metadata stores, repository 0,
/// without censoring; over `blobstore` if given, else an empty blob store.
pub fn new_memblob_empty(blobstore: Option<MemBlob>) -> (r: Result<BlobRepo, AssemblyError>)
    ensures
        r matches Ok(repo) && is_empty_development(repo, initial_blobs(blobstore)),
{
    let blobstore = match blobstore {
        Some(b) => b,
        None => MemBlob::new(),
    };
    let metadata = MetadataStores {
        bookmarks: Ok(SqlBookmarks::new()),
        filenodes: Ok(SqlFilenodes::new(String::new())),
        changesets: Ok(SqlChangesets::new()),
        bonsai_hg_mapping: Ok(SqlBonsaiHgMapping::new()),
    };
    let r = new_development(blobstore, None, None, RepositoryId::new(0), metadata);
    proof {
        let pools: PoolRegistry = vstd::pervasive::arbitrary();
        assert(r matches Ok(repo) && assembled(
            repo,
            Profile::Development,
            RepositoryId { id: 0 },
            blobstore@,
            None,
            None,
            None,
            pools,
            metadata,
        ));
    }
    r
}

/// A local metadata database never needs a cache pool: whether and where
/// assembly fails is the same whatever pools the registry holds.
pub proof fn lemma_local_db_ignores_pools(
    caching: Caching,
    censoring: Censoring,
    pools1: PoolRegistry,
    pools2: PoolRegistry,
    o: OpenedStores,
)
    ensures
        failure_stage(true, caching, censoring, pools1, o) == failure_stage(true, caching, censoring, pools2, o),
        profile_of(true, caching) != Some(Profile::Production),
{
}

/// With caching against a remote database, every required pool present and
/// every open successful, assembly succeeds.
pub proof fn lemma_production_succeeds(censoring: Censoring, pools: PoolRegistry, o: OpenedStores)
    requires
        first_missing_pool(pools) is None,
        o.blobstore is Ok,
        o.censored_blobs is Ok,
        first_failed_store(o.metadata) is None,
    ensures
        failure_stage(false, Caching::Enabled, censoring, pools, o) is None,
        profile_of(false, Caching::Enabled) == Some(Profile::Production),
{
}

/// In the production profile, once the blob store and the banned-content
/// table are in hand, a missing pool stops assembly, whatever the metadata
/// opens gave.
pub proof fn lemma_missing_pool_fails(censoring: Censoring, pools: PoolRegistry, o: OpenedStores)
    requires
        first_missing_pool(pools) is Some,
        o.blobstore is Ok,
        censoring == Censoring::Enabled ==> o.censored_blobs is Ok,
    ensures
        failure_stage(false, Caching::Enabled, censoring, pools, o) == Some(FailureStage::MissingPool),
{
}

/// With censoring off, the banned-content table plays no part: neither where
/// assembly fails nor the overlay that it installs depends on it.
pub proof fn lemma_disabled_censoring_ignores_table(
    local_db: bool,
    caching: Caching,
    pools: PoolRegistry,
    o1: OpenedStores,
    o2: OpenedStores,
)
    requires
        o1.blobstore == o2.blobstore,
        o1.metadata == o2.metadata,
    ensures
        failure_stage(local_db, caching, Censoring::Disabled, pools, o1) == failure_stage(
            local_db,
            caching,
            Censoring::Disabled,
            pools,
            o2,
        ),
        censored_table(Censoring::Disabled, o1) is None,
{
}

} // verus!
