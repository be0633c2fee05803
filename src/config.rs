//! Storage configuration, assembly profiles and assembly errors.

use vstd::prelude::*;

verus! {

/// Identifies one repository; every store of a handle is scoped to it.
#[derive(Clone, Copy, Debug, PartialEq, Eq, Structural)]
pub struct RepositoryId {
    pub id: i32,
}

impl RepositoryId {
    pub fn new(id: i32) -> (r: Self)
        ensures
            r.id == id,
    {
        RepositoryId { id }
    }

    pub fn id(&self) -> (r: i32)
        ensures
            r == self.id,
    {
        self.id
    }
}

/// Whether the cache tiers of the production profile are wanted.
#[derive(Clone, Copy, Debug, PartialEq, Eq, Structural)]
pub enum Caching {
    Enabled,
    Disabled,
}

/// Whether blob reads and writes go through the censorship overlay.
#[derive(Clone, Copy, Debug, PartialEq, Eq, Structural)]
pub enum Censoring {
    Enabled,
    Disabled,
}

/// Where the metadata stores live.
pub enum MetadataDBConfig {
    /// A file-backed database: the development profile.
    LocalDB { path: String },
    /// A remote database: the production profile.
    Remote { db_address: String, sharded_filenodes: bool },
}

/// The physical blob backend; it is opened by the caller and not validated
/// against the metadata backend.
pub enum BlobConfig {
    Local { path: String },
    Remote { bucket: String },
    Multiplexed { members: Vec<String> },
}

pub struct StorageConfig {
    pub blobstore: BlobConfig,
    pub dbconfig: MetadataDBConfig,
}

/// The assembly mode.
#[derive(Clone, Copy, Debug, PartialEq, Eq, Structural)]
pub enum Profile {
    /// No cache tiers, no pool lookups, a lease that never coordinates.
    Development,
    /// Cache tiers in front of every store and a distributed lease.
    Production,
}

/// A configuration that cannot be assembled.
#[derive(Debug)]
pub enum ConfigError {
    /// A named cache pool was not allocated at process start.
    MissingPool { name: String },
    /// Cache tiers were asked for against a local metadata database.
    CachingWithLocalDb,
}

/// The metadata store that failed to open.
#[derive(Clone, Copy, Debug, PartialEq, Eq, Structural)]
pub enum StateOpenError {
    Bookmarks,
    Filenodes,
    Changesets,
    BonsaiHgMapping,
}

/// Why assembly failed; no partial handle is ever returned.
#[derive(Debug)]
pub enum AssemblyError {
    Config(ConfigError),
    /// A metadata store could not be opened.
    StateOpen { store: StateOpenError, cause: String },
    /// The physical blob store could not be opened.
    BlobstoreOpen { cause: String },
    /// The banned-content table could not be loaded while censoring is enabled.
    CensoredTable { cause: String },
}

/// `e` reports the pool named `name` as missing.
pub open spec fn is_missing_pool(e: ConfigError, name: Seq<char>) -> bool {
    match e {
        ConfigError::MissingPool { name: n } => n@ == name,
        _ => false,
    }
}

pub open spec fn is_local(db: MetadataDBConfig) -> bool {
    db is LocalDB
}

/// The profile that a metadata backend and a caching choice select, if any:
/// a local database never gets cache tiers, and a remote one gets them unless
/// caching is switched off.
pub open spec fn profile_of(local_db: bool, caching: Caching) -> Option<Profile> {
    match caching {
        Caching::Enabled => if local_db {
            None
        } else {
            Some(Profile::Production)
        },
        Caching::Disabled => Some(Profile::Development),
    }
}

pub fn select_profile(db: &MetadataDBConfig, caching: Caching) -> (r: Result<Profile, ConfigError>)
    ensures
        match r {
            Ok(p) => profile_of(is_local(*db), caching) == Some(p),
            Err(e) => profile_of(is_local(*db), caching) is None && e is CachingWithLocalDb,
        },
{
    match (db, caching) {
        (MetadataDBConfig::LocalDB { .. }, Caching::Enabled) => Err(ConfigError::CachingWithLocalDb),
        (MetadataDBConfig::Remote { .. }, Caching::Enabled) => Ok(Profile::Production),
        (_, Caching::Disabled) => Ok(Profile::Development),
    }
}

} // verus!
