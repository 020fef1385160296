use omicron::region_snapshot::{
    CrucibleDataset, DataStore, PhysicalDisk, PhysicalDiskPolicy, RegionSnapshot, Zpool,
};
use omicron::time::Timestamp;

fn snapshot(dataset_id: u128, region_id: u128, snapshot_id: u128) -> RegionSnapshot {
    RegionSnapshot {
        dataset_id,
        region_id,
        snapshot_id,
        snapshot_addr: "[::1]:1000".to_string(),
        volume_references: 1,
        deleting: false,
    }
}

fn datastore() -> DataStore {
    DataStore {
        physical_disks: vec![
            PhysicalDisk { id: 1, disk_policy: PhysicalDiskPolicy::InService },
            PhysicalDisk { id: 2, disk_policy: PhysicalDiskPolicy::Expunged },
        ],
        zpools: vec![
            Zpool { id: 11, physical_disk_id: 1, time_deleted: None },
            Zpool { id: 12, physical_disk_id: 2, time_deleted: None },
        ],
        crucible_datasets: vec![
            CrucibleDataset { id: 21, pool_id: 11, time_deleted: None },
            CrucibleDataset { id: 22, pool_id: 12, time_deleted: None },
        ],
        region_snapshots: Vec::new(),
    }
}

#[test]
fn what_was_created_is_found() {
    let mut store = datastore();
    store.region_snapshot_create(snapshot(21, 31, 41));
    let found = store.region_snapshot_get(21, 31, 41).unwrap();
    assert_eq!(found.snapshot_addr, "[::1]:1000");
    assert!(store.region_snapshot_get(21, 31, 42).is_none());
    assert!(store.region_snapshot_get(22, 31, 41).is_none());
}

#[test]
fn creating_twice_does_nothing() {
    let mut store = datastore();
    store.region_snapshot_create(snapshot(21, 31, 41));
    let mut other = snapshot(21, 31, 41);
    other.volume_references = 9;
    store.region_snapshot_create(other);
    assert_eq!(store.region_snapshots.len(), 1);
    assert_eq!(store.region_snapshot_get(21, 31, 41).unwrap().volume_references, 1);
}

#[test]
fn what_was_removed_is_gone() {
    let mut store = datastore();
    store.region_snapshot_create(snapshot(21, 31, 41));
    store.region_snapshot_create(snapshot(21, 32, 41));
    store.region_snapshot_remove(21, 31, 41);
    assert!(store.region_snapshot_get(21, 31, 41).is_none());
    assert!(store.region_snapshot_get(21, 32, 41).is_some());
}

#[test]
fn snapshots_are_found_by_the_policy_of_their_disk() {
    let mut store = datastore();
    store.region_snapshot_create(snapshot(21, 31, 41));
    store.region_snapshot_create(snapshot(22, 32, 41));
    store.region_snapshot_create(snapshot(21, 33, 42));
    let regions = |found: Vec<RegionSnapshot>| -> Vec<u128> {
        found.iter().map(|s| s.region_id).collect()
    };
    assert_eq!(regions(store.find_region_snapshots_on_expunged_physical_disks()), vec![32]);
    assert_eq!(regions(store.find_non_expunged_region_snapshots(41)), vec![31]);
    assert_eq!(regions(store.find_non_expunged_region_snapshots(42)), vec![33]);
    assert!(store.find_non_expunged_region_snapshots(43).is_empty());
}

#[test]
fn deleted_zpools_and_datasets_do_not_count() {
    let mut store = datastore();
    store.region_snapshot_create(snapshot(21, 31, 41));
    store.region_snapshot_create(snapshot(22, 32, 41));
    let counts = |store: &DataStore| {
        (
            store.find_region_snapshots_on_expunged_physical_disks().len(),
            store.find_non_expunged_region_snapshots(41).len(),
        )
    };
    assert_eq!(counts(&store), (1, 1));
    let deleted = Some(Timestamp { secs: 1, nanos: 0 });
    store.zpools[1].time_deleted = deleted;
    assert_eq!(counts(&store), (0, 1));
    store.crucible_datasets[0].time_deleted = deleted;
    assert_eq!(counts(&store), (0, 0));
}
