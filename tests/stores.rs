use blobrepo_factory::blackbox::{Blackbox, BlackboxSlot};
use blobrepo_factory::blobstore::{CachedBlobstore, MemBlob};
use blobrepo_factory::bookmarks::{BookmarkError, CachedBookmarks, SqlBookmarks};
use blobrepo_factory::config::{ConfigError, RepositoryId};
use blobrepo_factory::lease::{Lease, LeaseOutcome, LeaseTable};
use blobrepo_factory::metadata::{
    ChangesetEntry, ChangesetId, FetchError, FilenodeInfo, HgChangesetId, SqlBonsaiHgMapping,
    SqlChangesets, SqlFilenodes,
};
use blobrepo_factory::pools::PoolRegistry;
use blobrepo_factory::{init, log, sync};

#[test]
fn pool_lookup_by_kind() {
    let mut pools = PoolRegistry::new();
    pools.register("blobstore-blobs".to_string(), 8, false);
    pools.register("filenodes".to_string(), 3, true);
    let p = pools.get_pool("blobstore-blobs").unwrap();
    assert_eq!((p.name.as_str(), p.capacity, p.volatile), ("blobstore-blobs", 8, false));
    let v = pools.get_volatile_pool("filenodes").unwrap();
    assert_eq!((v.capacity, v.volatile), (3, true));
    match pools.get_pool("filenodes") {
        Err(ConfigError::MissingPool { name }) => assert_eq!(name, "filenodes"),
        _ => panic!("a volatile pool is not a persistent one"),
    }
    match pools.get_volatile_pool("changesets") {
        Err(ConfigError::MissingPool { name }) => assert_eq!(name, "changesets"),
        _ => panic!("expected a missing pool"),
    }
}

#[test]
fn lease_two_callers_one_wins() {
    let mut t = LeaseTable::new();
    let ns = "derive".to_string();
    let k = "c1".to_string();
    let other = "c2".to_string();
    assert_eq!(t.acquire(&ns, &k), LeaseOutcome::Won);
    assert_eq!(t.acquire(&ns, &k), LeaseOutcome::Lost);
    assert_eq!(t.acquire(&ns, &other), LeaseOutcome::Won);
    assert_eq!(t.acquire(&"other-ns".to_string(), &k), LeaseOutcome::Won);
    t.release(&ns, &k);
    assert_eq!(t.acquire(&ns, &k), LeaseOutcome::Won);
    t.release(&ns, &"never-held".to_string());
    assert_eq!(t.held.len(), 3);
}

#[test]
fn dummy_lease_never_coordinates() {
    let mut l = Lease::Dummy;
    let ns = "n".to_string();
    let k = "k".to_string();
    assert_eq!(l.acquire(&ns, &k), LeaseOutcome::Won);
    assert_eq!(l.acquire(&ns, &k), LeaseOutcome::Won);
    let mut d = Lease::Distributed(LeaseTable::new());
    assert_eq!(d.acquire(&ns, &k), LeaseOutcome::Won);
    assert_eq!(d.acquire(&ns, &k), LeaseOutcome::Lost);
}

#[test]
fn memblob_put_get_present() {
    let mut b = MemBlob::new();
    let k = "key".to_string();
    assert_eq!(b.get(&k), None);
    assert!(!b.is_present(&k));
    b.put(k.clone(), vec![1, 2, 3]);
    assert_eq!(b.get(&k), Some(vec![1, 2, 3]));
    b.put(k.clone(), vec![9]);
    assert_eq!(b.get(&k), Some(vec![9]));
    assert!(b.is_present(&k));
    let mut store = CachedBlobstore::uncached(b);
    assert_eq!(store.get(&k), Some(vec![9]));
}

#[test]
fn bookmarks_create_and_update() {
    let mut b = CachedBookmarks::new(SqlBookmarks::new(), Some(10));
    let main = "main".to_string();
    let c1 = ChangesetId { id: 1 };
    let c2 = ChangesetId { id: 2 };
    b.create(main.clone(), c1).unwrap();
    assert!(matches!(b.create(main.clone(), c2), Err(BookmarkError::AlreadyExists { .. })));
    assert!(matches!(b.update(main.clone(), c2, c1), Err(BookmarkError::Mismatch { .. })));
    assert!(matches!(
        b.update("absent".to_string(), c1, c2),
        Err(BookmarkError::Mismatch { .. })
    ));
    b.update(main.clone(), c1, c2).unwrap();
    assert_eq!(b.get(&main, 0), Some(c2));
}

#[test]
fn bookmark_snapshot_within_ttl() {
    let mut b = CachedBookmarks::new(SqlBookmarks::new(), Some(10));
    let main = "main".to_string();
    let c1 = ChangesetId { id: 1 };
    b.set(main.clone(), c1);
    assert_eq!(b.get(&main, 100), Some(c1));
    assert_eq!(b.snapshot.as_ref().unwrap().loaded_at, 100);
    // within the window: served from the snapshot, not reloaded
    assert_eq!(b.get(&main, 109), Some(c1));
    assert_eq!(b.snapshot.as_ref().unwrap().loaded_at, 100);
    // window elapsed: reloaded
    assert_eq!(b.get(&main, 110), Some(c1));
    assert_eq!(b.snapshot.as_ref().unwrap().loaded_at, 110);
    // a write drops the snapshot
    b.set(main.clone(), ChangesetId { id: 2 });
    assert!(b.snapshot.is_none());
    assert_eq!(b.get(&main, 111), Some(ChangesetId { id: 2 }));
    assert_eq!(b.get(&"dev".to_string(), 111), None);
}

#[test]
fn bookmarks_without_ttl_are_not_cached() {
    let mut b = CachedBookmarks::new(SqlBookmarks::new(), None);
    let main = "main".to_string();
    b.set(main.clone(), ChangesetId { id: 4 });
    assert_eq!(b.get(&main, 5), Some(ChangesetId { id: 4 }));
    assert!(b.snapshot.is_none());
}

#[test]
fn changeset_fetcher_parents_and_generation() {
    let repo = RepositoryId::new(5);
    let root = ChangesetId { id: 10 };
    let left = ChangesetId { id: 11 };
    let merge = ChangesetId { id: 12 };
    let mut cs = SqlChangesets::new();
    cs.add(ChangesetEntry { repo_id: repo, cs_id: root, parent1: None, parent2: None, gen: 1 });
    cs.add(ChangesetEntry { repo_id: repo, cs_id: left, parent1: Some(root), parent2: None, gen: 2 });
    cs.add(ChangesetEntry { repo_id: repo, cs_id: merge, parent1: Some(left), parent2: Some(root), gen: 3 });
    cs.add(ChangesetEntry {
        repo_id: RepositoryId::new(6),
        cs_id: ChangesetId { id: 99 },
        parent1: None,
        parent2: None,
        gen: 1,
    });
    let mut repo_handle = blobrepo_factory::new_memblob_empty(None).unwrap();
    repo_handle.changesets = cs;
    repo_handle.repoid = repo;
    let f = repo_handle.changeset_fetcher();
    assert_eq!(f.get_parents(merge).unwrap(), vec![left, root]);
    assert_eq!(f.get_parents(root).unwrap(), vec![]);
    assert_eq!(f.get_generation(merge).unwrap(), 3);
    assert_eq!(f.get_generation(ChangesetId { id: 50 }), Err(FetchError::NotFound { cs_id: ChangesetId { id: 50 } }));
    // another repository's node is not visible
    assert!(f.get_parents(ChangesetId { id: 99 }).is_err());
}

#[test]
fn bonsai_hg_mapping_both_ways() {
    let mut m = SqlBonsaiHgMapping::new();
    let cs = ChangesetId { id: 1 };
    let hg = HgChangesetId { id: 100 };
    assert_eq!(m.get_hg(cs), None);
    m.add(cs, hg);
    assert_eq!(m.get_hg(cs), Some(hg));
    assert_eq!(m.get_bonsai(hg), Some(cs));
    assert_eq!(m.get_bonsai(HgChangesetId { id: 1 }), None);
}

#[test]
fn filenodes_by_path_and_revision() {
    let mut f = SqlFilenodes::new("shard-1".to_string());
    let info = FilenodeInfo { linknode: ChangesetId { id: 3 }, parent1: Some(7), parent2: None };
    f.add("dir/file".to_string(), 8, info);
    assert_eq!(f.get(&"dir/file".to_string(), 8), Some(info));
    assert_eq!(f.get(&"dir/file".to_string(), 7), None);
    assert_eq!(f.get(&"dir/other".to_string(), 8), None);
    assert_eq!(f.tier, "shard-1");
}

#[test]
fn event_log_is_silent_until_init() {
    let mut slot = BlackboxSlot::new();
    log(&mut slot, b"early".to_vec());
    assert!(slot.inner.is_none());
    assert!(sync(&mut slot).is_empty());
    init(&mut slot, Blackbox::new("/tmp/events".to_string()));
    log(&mut slot, b"one".to_vec());
    log(&mut slot, b"two".to_vec());
    assert_eq!(sync(&mut slot), vec![b"one".to_vec(), b"two".to_vec()]);
    assert!(sync(&mut slot).is_empty());
    assert_eq!(slot.inner.as_ref().unwrap().path, "/tmp/events");
    // init replaces the log and its buffer
    log(&mut slot, b"three".to_vec());
    init(&mut slot, Blackbox::new("/tmp/other".to_string()));
    assert!(sync(&mut slot).is_empty());
}
