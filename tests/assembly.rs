use blobrepo_factory::blobstore::{BlobError, MemBlob};
use blobrepo_factory::bookmarks::SqlBookmarks;
use blobrepo_factory::config::{
    AssemblyError, BlobConfig, Censoring, ConfigError, MetadataDBConfig, Profile, RepositoryId,
    StateOpenError, StorageConfig,
};
use blobrepo_factory::keys::physical_key;
use blobrepo_factory::lease::LeaseOutcome;
use blobrepo_factory::metadata::{
    ChangesetEntry, ChangesetId, FilenodeInfo, HgChangesetId, SqlBonsaiHgMapping, SqlChangesets, SqlFilenodes,
};
use blobrepo_factory::pools::PoolRegistry;
use blobrepo_factory::repo::{plan_open, HgDerivation, MetadataStores, OpenPlan, OpenedStores};
use blobrepo_factory::{new_memblob_empty, open_blobrepo, Caching};

fn local_config() -> StorageConfig {
    StorageConfig {
        blobstore: BlobConfig::Local { path: "/tmp/blobs".to_string() },
        dbconfig: MetadataDBConfig::LocalDB { path: "/tmp/db".to_string() },
    }
}

fn remote_config() -> StorageConfig {
    StorageConfig {
        blobstore: BlobConfig::Multiplexed { members: vec!["a".to_string(), "b".to_string()] },
        dbconfig: MetadataDBConfig::Remote {
            db_address: "db.example".to_string(),
            sharded_filenodes: false,
        },
    }
}

fn all_pools() -> PoolRegistry {
    let mut pools = PoolRegistry::new();
    pools.register("blobstore-blobs".to_string(), 4, false);
    pools.register("blobstore-presence".to_string(), 4, false);
    pools.register("filenodes".to_string(), 4, true);
    pools.register("changesets".to_string(), 4, true);
    pools.register("bonsai_hg_mapping".to_string(), 4, true);
    pools
}

fn metadata_ok() -> MetadataStores {
    MetadataStores {
        bookmarks: Ok(SqlBookmarks::new()),
        filenodes: Ok(SqlFilenodes::new("tier".to_string())),
        changesets: Ok(SqlChangesets::new()),
        bonsai_hg_mapping: Ok(SqlBonsaiHgMapping::new()),
    }
}

fn physical(repo: i32, key: &str) -> String {
    format!("repo{:04}.{}", repo, key)
}

fn blobs_with(repo: i32, key: &str, value: &[u8]) -> MemBlob {
    let mut b = MemBlob::new();
    b.put(physical(repo, key), value.to_vec());
    b
}

fn opened(blobstore: MemBlob, censored: Vec<(String, String)>) -> OpenedStores {
    OpenedStores { blobstore: Ok(blobstore), censored_blobs: Ok(censored), metadata: metadata_ok() }
}

#[test]
fn plan_selects_profile_from_db_kind() {
    let p = plan_open(&local_config(), Caching::Disabled, Censoring::Disabled).unwrap();
    assert_eq!(p, OpenPlan { profile: Profile::Development, fetch_censored_table: false });
    let p = plan_open(&remote_config(), Caching::Enabled, Censoring::Enabled).unwrap();
    assert_eq!(p, OpenPlan { profile: Profile::Production, fetch_censored_table: true });
    let p = plan_open(&remote_config(), Caching::Disabled, Censoring::Disabled).unwrap();
    assert_eq!(p.profile, Profile::Development);
    let e = plan_open(&local_config(), Caching::Enabled, Censoring::Disabled).unwrap_err();
    assert!(matches!(e, AssemblyError::Config(ConfigError::CachingWithLocalDb)));
}

#[test]
fn local_db_assembles_without_any_pool() {
    let empty = PoolRegistry::new();
    let repo = open_blobrepo(
        &local_config(),
        RepositoryId::new(7),
        Caching::Disabled,
        Some(10),
        Censoring::Disabled,
        None,
        &empty,
        opened(blobs_with(7, "k", b"v"), vec![]),
    )
    .unwrap();
    assert_eq!(repo.profile, Profile::Development);
    assert_eq!(repo.repoid, RepositoryId::new(7));
    assert!(repo.blobstore.store.remote.is_none());
    assert!(repo.blobstore.store.local.is_none());
    assert_eq!(repo.bookmarks.ttl, None);
}

#[test]
fn local_db_with_caching_is_rejected() {
    let r = open_blobrepo(
        &local_config(),
        RepositoryId::new(1),
        Caching::Enabled,
        None,
        Censoring::Disabled,
        None,
        &all_pools(),
        opened(MemBlob::new(), vec![]),
    );
    assert!(matches!(r, Err(AssemblyError::Config(ConfigError::CachingWithLocalDb))));
}

#[test]
fn production_cold_cache_reads_match_backend() {
    let mut repo = open_blobrepo(
        &remote_config(),
        RepositoryId::new(3),
        Caching::Enabled,
        Some(5),
        Censoring::Enabled,
        None,
        &all_pools(),
        opened(blobs_with(3, "content.a", b"alpha"), vec![]),
    )
    .unwrap();
    assert_eq!(repo.profile, Profile::Production);
    assert_eq!(repo.blobstore.store.local.as_ref().unwrap().blobs.capacity, 4);
    assert_eq!(repo.filenodes.cache.as_ref().unwrap().capacity, 4);
    assert_eq!(repo.bookmarks.ttl, Some(5));
    let k = "content.a".to_string();
    assert_eq!(repo.blobstore.get(&k).unwrap(), Some(b"alpha".to_vec()));
    // second read is served by a cache tier and agrees
    assert_eq!(repo.blobstore.get(&k).unwrap(), Some(b"alpha".to_vec()));
    assert!(repo.blobstore.is_present(&k));
    assert!(repo.blobstore.is_present(&k));
    let missing = "content.b".to_string();
    assert_eq!(repo.blobstore.get(&missing).unwrap(), None);
    assert!(!repo.blobstore.is_present(&missing));
}

#[test]
fn production_write_replaces_cached_contents() {
    let mut repo = open_blobrepo(
        &remote_config(),
        RepositoryId::new(3),
        Caching::Enabled,
        None,
        Censoring::Disabled,
        None,
        &all_pools(),
        opened(blobs_with(3, "k", b"old"), vec![]),
    )
    .unwrap();
    let k = "k".to_string();
    assert_eq!(repo.blobstore.get(&k).unwrap(), Some(b"old".to_vec()));
    repo.blobstore.put(k.clone(), b"new".to_vec()).unwrap();
    assert_eq!(repo.blobstore.get(&k).unwrap(), Some(b"new".to_vec()));
}

#[test]
fn cache_evicts_when_full() {
    let mut pools = all_pools();
    pools.register("blobstore-blobs".to_string(), 1, false);
    let mut backend = MemBlob::new();
    for i in 0..5u8 {
        backend.put(physical(3, &format!("k{}", i)), vec![i]);
    }
    let mut repo = open_blobrepo(
        &remote_config(),
        RepositoryId::new(3),
        Caching::Enabled,
        None,
        Censoring::Disabled,
        None,
        &pools,
        opened(backend, vec![]),
    )
    .unwrap();
    for round in 0..2 {
        for i in 0..5u8 {
            let k = format!("k{}", i);
            assert_eq!(repo.blobstore.get(&k).unwrap(), Some(vec![i]), "round {}", round);
        }
    }
    assert_eq!(repo.blobstore.store.local.as_ref().unwrap().blobs.entries.len(), 1);
}

#[test]
fn missing_pool_fails_production_assembly() {
    let mut pools = PoolRegistry::new();
    pools.register("blobstore-blobs".to_string(), 4, false);
    pools.register("blobstore-presence".to_string(), 4, false);
    pools.register("filenodes".to_string(), 4, true);
    pools.register("bonsai_hg_mapping".to_string(), 4, true);
    // registered as persistent: the volatile lookup does not find it
    pools.register("changesets".to_string(), 4, false);
    let r = open_blobrepo(
        &remote_config(),
        RepositoryId::new(3),
        Caching::Enabled,
        None,
        Censoring::Disabled,
        None,
        &pools,
        opened(MemBlob::new(), vec![]),
    );
    match r {
        Err(AssemblyError::Config(ConfigError::MissingPool { name })) => assert_eq!(name, "changesets"),
        _ => panic!("expected a missing pool"),
    }
}

#[test]
fn missing_pool_reported_before_failed_store() {
    let mut metadata = metadata_ok();
    metadata.bookmarks = Err("no route".to_string());
    let r = open_blobrepo(
        &remote_config(),
        RepositoryId::new(3),
        Caching::Enabled,
        None,
        Censoring::Disabled,
        None,
        &PoolRegistry::new(),
        OpenedStores { blobstore: Ok(MemBlob::new()), censored_blobs: Ok(vec![]), metadata },
    );
    match r {
        Err(AssemblyError::Config(ConfigError::MissingPool { name })) => assert_eq!(name, "blobstore-blobs"),
        _ => panic!("expected a missing pool"),
    }
}

#[test]
fn first_failed_store_is_reported() {
    let mut metadata = metadata_ok();
    metadata.changesets = Err("schema".to_string());
    metadata.bonsai_hg_mapping = Err("auth".to_string());
    let r = open_blobrepo(
        &local_config(),
        RepositoryId::new(1),
        Caching::Disabled,
        None,
        Censoring::Disabled,
        None,
        &PoolRegistry::new(),
        OpenedStores { blobstore: Ok(MemBlob::new()), censored_blobs: Ok(vec![]), metadata },
    );
    match r {
        Err(AssemblyError::StateOpen { store, cause }) => {
            assert_eq!(store, StateOpenError::Changesets);
            assert_eq!(cause, "schema");
        }
        _ => panic!("expected a store failure"),
    }
    let mut metadata = metadata_ok();
    metadata.filenodes = Err("down".to_string());
    let r = open_blobrepo(
        &remote_config(),
        RepositoryId::new(1),
        Caching::Enabled,
        None,
        Censoring::Disabled,
        None,
        &all_pools(),
        OpenedStores { blobstore: Ok(MemBlob::new()), censored_blobs: Ok(vec![]), metadata },
    );
    assert!(matches!(r, Err(AssemblyError::StateOpen { store: StateOpenError::Filenodes, .. })));
}

#[test]
fn blobstore_and_censored_table_failures() {
    let r = open_blobrepo(
        &local_config(),
        RepositoryId::new(1),
        Caching::Disabled,
        None,
        Censoring::Enabled,
        None,
        &PoolRegistry::new(),
        OpenedStores {
            blobstore: Err("unreachable".to_string()),
            censored_blobs: Err("table".to_string()),
            metadata: metadata_ok(),
        },
    );
    match r {
        Err(AssemblyError::BlobstoreOpen { cause }) => assert_eq!(cause, "unreachable"),
        _ => panic!("expected a blob store failure"),
    }
    let r = open_blobrepo(
        &local_config(),
        RepositoryId::new(1),
        Caching::Disabled,
        None,
        Censoring::Enabled,
        None,
        &PoolRegistry::new(),
        OpenedStores {
            blobstore: Ok(MemBlob::new()),
            censored_blobs: Err("table".to_string()),
            metadata: metadata_ok(),
        },
    );
    match r {
        Err(AssemblyError::CensoredTable { cause }) => assert_eq!(cause, "table"),
        _ => panic!("expected a censored table failure"),
    }
}

#[test]
fn disabled_censoring_ignores_table_outcome() {
    let mut repo = open_blobrepo(
        &local_config(),
        RepositoryId::new(1),
        Caching::Disabled,
        None,
        Censoring::Disabled,
        None,
        &PoolRegistry::new(),
        OpenedStores {
            blobstore: Ok(blobs_with(1, "banned", b"secret")),
            censored_blobs: Err("never fetched".to_string()),
            metadata: metadata_ok(),
        },
    )
    .unwrap();
    assert!(repo.blobstore.censored.is_none());
    let k = "banned".to_string();
    assert_eq!(repo.blobstore.get(&k).unwrap(), Some(b"secret".to_vec()));
    assert_eq!(repo.blobstore.get(&"absent".to_string()).unwrap(), None);
}

#[test]
fn censored_key_is_blocked() {
    let mut repo = open_blobrepo(
        &remote_config(),
        RepositoryId::new(1),
        Caching::Enabled,
        None,
        Censoring::Enabled,
        None,
        &all_pools(),
        opened(
            blobs_with(1, "banned", b"secret"),
            vec![("banned".to_string(), "legal request".to_string())],
        ),
    )
    .unwrap();
    let k = "banned".to_string();
    match repo.blobstore.get(&k) {
        Err(BlobError::Censored { reason }) => assert_eq!(reason, "legal request"),
        _ => panic!("expected censored"),
    }
    match repo.blobstore.put(k.clone(), b"other".to_vec()) {
        Err(BlobError::Censored { reason }) => assert_eq!(reason, "legal request"),
        _ => panic!("expected censored"),
    }
    // existence probes are not censored
    assert!(repo.blobstore.is_present(&k));
    let ok = "fine".to_string();
    repo.blobstore.put(ok.clone(), b"x".to_vec()).unwrap();
    assert_eq!(repo.blobstore.get(&ok).unwrap(), Some(b"x".to_vec()));
}

#[test]
fn censored_absent_key_is_censored_not_missing() {
    let mut repo = open_blobrepo(
        &local_config(),
        RepositoryId::new(1),
        Caching::Disabled,
        None,
        Censoring::Enabled,
        None,
        &PoolRegistry::new(),
        opened(MemBlob::new(), vec![("gone".to_string(), "policy".to_string())]),
    )
    .unwrap();
    assert!(matches!(repo.blobstore.get(&"gone".to_string()), Err(BlobError::Censored { .. })));
}

#[test]
fn memblob_empty_handle() {
    let mut repo = new_memblob_empty(None).unwrap();
    assert_eq!(repo.repoid, RepositoryId::new(0));
    assert_eq!(repo.profile, Profile::Development);
    assert_eq!(repo.blobstore.get(&"x".to_string()).unwrap(), None);
    let mut repo2 = new_memblob_empty(Some(blobs_with(0, "x", b"1"))).unwrap();
    assert_eq!(repo2.blobstore.get(&"x".to_string()).unwrap(), Some(b"1".to_vec()));
    let mut lease = std::mem::replace(&mut repo.lease, blobrepo_factory::lease::Lease::Dummy);
    let ns = "ns".to_string();
    let key = "k".to_string();
    assert_eq!(lease.acquire(&ns, &key), LeaseOutcome::Won);
    assert_eq!(lease.acquire(&ns, &key), LeaseOutcome::Won);
}

#[test]
fn development_bookmark_round_trip() {
    let mut repo = new_memblob_empty(None).unwrap();
    let c1 = ChangesetId { id: 1 };
    repo.bookmarks.set("main".to_string(), c1);
    assert_eq!(repo.bookmarks.get(&"main".to_string(), 0), Some(c1));
}

#[test]
fn zero_ttl_bookmark_cache_is_not_stale() {
    let mut repo = open_blobrepo(
        &remote_config(),
        RepositoryId::new(2),
        Caching::Enabled,
        Some(0),
        Censoring::Disabled,
        None,
        &all_pools(),
        opened(MemBlob::new(), vec![]),
    )
    .unwrap();
    let c1 = ChangesetId { id: 1 };
    let main = "main".to_string();
    repo.bookmarks.set(main.clone(), c1);
    assert_eq!(repo.bookmarks.get(&main, 100), Some(c1));
    assert_eq!(repo.bookmarks.get(&main, 100), Some(c1));
}

#[test]
fn production_handle_has_coordinating_lease() {
    let mut repo = open_blobrepo(
        &remote_config(),
        RepositoryId::new(2),
        Caching::Enabled,
        None,
        Censoring::Disabled,
        None,
        &all_pools(),
        opened(MemBlob::new(), vec![]),
    )
    .unwrap();
    let ns = "bonsai-hg-generation".to_string();
    let key = "c1".to_string();
    assert_eq!(repo.lease.acquire(&ns, &key), LeaseOutcome::Won);
    assert_eq!(repo.lease.acquire(&ns, &key), LeaseOutcome::Lost);
    repo.lease.release(&ns, &key);
    assert_eq!(repo.lease.acquire(&ns, &key), LeaseOutcome::Won);
}

#[test]
fn production_metadata_reads_through_caches() {
    let mut repo = open_blobrepo(
        &remote_config(),
        RepositoryId::new(2),
        Caching::Enabled,
        None,
        Censoring::Disabled,
        None,
        &all_pools(),
        opened(MemBlob::new(), vec![]),
    )
    .unwrap();
    let c = ChangesetId { id: 5 };
    let entry = ChangesetEntry { repo_id: RepositoryId::new(2), cs_id: c, parent1: None, parent2: None, gen: 1 };
    repo.changesets.add(entry);
    assert_eq!(repo.changesets.get(c), Some(entry));
    assert_eq!(repo.changesets.table.cache.as_ref().unwrap().entries.len(), 1);
    assert_eq!(repo.changesets.get(c), Some(entry));
    let changed = ChangesetEntry { gen: 2, ..entry };
    repo.changesets.add(changed);
    assert_eq!(repo.changesets.get(c), Some(changed));
    repo.bonsai_hg_mapping.add(c, HgChangesetId { id: 50 });
    assert_eq!(repo.bonsai_hg_mapping.get_hg(c), Some(HgChangesetId { id: 50 }));
    assert_eq!(repo.bonsai_hg_mapping.get_hg(c), Some(HgChangesetId { id: 50 }));
    assert_eq!(repo.bonsai_hg_mapping.get_bonsai(HgChangesetId { id: 50 }), Some(c));
    assert_eq!(repo.changesets.table.cache.as_ref().unwrap().capacity, 4);
    let info = FilenodeInfo { linknode: c, parent1: None, parent2: None };
    let path = "a/b".to_string();
    repo.filenodes.add(path.clone(), 3, info);
    assert_eq!(repo.filenodes.get(&path, 3), Some(info));
    assert_eq!(repo.filenodes.cache.as_ref().unwrap().entries.len(), 1);
    assert_eq!(repo.filenodes.get(&path, 3), Some(info));
    let moved = FilenodeInfo { linknode: ChangesetId { id: 6 }, ..info };
    repo.filenodes.add(path.clone(), 3, moved);
    assert_eq!(repo.filenodes.get(&path, 3), Some(moved));
    assert_eq!(repo.filenodes.get(&path, 4), None);
}

#[test]
fn hg_derivation_is_lease_guarded_in_production() {
    let mut repo = open_blobrepo(
        &remote_config(),
        RepositoryId::new(2),
        Caching::Enabled,
        None,
        Censoring::Disabled,
        None,
        &all_pools(),
        opened(MemBlob::new(), vec![]),
    )
    .unwrap();
    let c = ChangesetId { id: 9 };
    let key = "cs9".to_string();
    assert_eq!(repo.start_hg_derivation(c, &key), HgDerivation::Derive);
    assert_eq!(repo.start_hg_derivation(c, &key), HgDerivation::Wait);
    repo.finish_hg_derivation(c, HgChangesetId { id: 90 }, &key);
    assert_eq!(repo.start_hg_derivation(c, &key), HgDerivation::Known(HgChangesetId { id: 90 }));
    // the lease was given up
    let ns = "bonsai-hg-generation".to_string();
    assert_eq!(repo.lease.acquire(&ns, &key), LeaseOutcome::Won);
}

#[test]
fn hg_derivation_never_waits_in_development() {
    let mut repo = new_memblob_empty(None).unwrap();
    let c = ChangesetId { id: 9 };
    let key = "cs9".to_string();
    assert_eq!(repo.start_hg_derivation(c, &key), HgDerivation::Derive);
    assert_eq!(repo.start_hg_derivation(c, &key), HgDerivation::Derive);
}

#[test]
fn physical_keys_carry_the_repository() {
    for id in [0, 7, 42, 999, 1000, 12345, i32::MAX, -1, -12, -123, -1234, i32::MIN] {
        let key = "content.blake2.ab".to_string();
        assert_eq!(physical_key(id, &key), format!("repo{:04}.{}", id, key));
    }
    assert_eq!(physical_key(3, &"k".to_string()), "repo0003.k");
}

#[test]
fn writes_land_under_the_repository_prefix() {
    let mut repo = open_blobrepo(
        &local_config(),
        RepositoryId::new(12),
        Caching::Disabled,
        None,
        Censoring::Disabled,
        None,
        &PoolRegistry::new(),
        opened(blobs_with(13, "k", b"other repo"), vec![]),
    )
    .unwrap();
    let k = "k".to_string();
    // another repository's blob under the same key is not visible
    assert_eq!(repo.blobstore.get(&k).unwrap(), None);
    repo.blobstore.put(k.clone(), b"mine".to_vec()).unwrap();
    assert_eq!(repo.blobstore.get(&k).unwrap(), Some(b"mine".to_vec()));
    let backend = &repo.blobstore.store.backend;
    assert_eq!(backend.get(&"repo0012.k".to_string()), Some(b"mine".to_vec()));
    assert_eq!(backend.get(&"repo0013.k".to_string()), Some(b"other repo".to_vec()));
}

#[test]
fn censored_accesses_are_recorded_for_a_sink() {
    let banned = vec![("banned".to_string(), "policy".to_string())];
    let mut repo = open_blobrepo(
        &local_config(),
        RepositoryId::new(1),
        Caching::Disabled,
        None,
        Censoring::Enabled,
        Some("censored_access".to_string()),
        &PoolRegistry::new(),
        opened(blobs_with(1, "ok", b"1"), banned.clone()),
    )
    .unwrap();
    let k = "banned".to_string();
    assert!(repo.blobstore.get(&k).is_err());
    assert!(repo.blobstore.put(k.clone(), vec![1]).is_err());
    assert_eq!(repo.blobstore.get(&"ok".to_string()).unwrap(), Some(b"1".to_vec()));
    assert_eq!(repo.blobstore.take_censored_events(), vec![k.clone(), k.clone()]);
    assert!(repo.blobstore.take_censored_events().is_empty());

    let mut quiet = open_blobrepo(
        &local_config(),
        RepositoryId::new(1),
        Caching::Disabled,
        None,
        Censoring::Enabled,
        None,
        &PoolRegistry::new(),
        opened(MemBlob::new(), banned),
    )
    .unwrap();
    assert!(quiet.blobstore.get(&k).is_err());
    assert!(quiet.blobstore.take_censored_events().is_empty());
}
