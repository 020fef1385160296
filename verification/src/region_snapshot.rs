//! Queries on region snapshots, and on the disks that hold them.

use vstd::prelude::*;

use crate::sort::views;
use crate::text::Uuid;
use crate::time::Timestamp;

verus! {

/// A snapshot of a region.
///
/// It is known by its dataset, its region, and its snapshot.
#[derive(Debug)]
pub struct RegionSnapshot {
    pub dataset_id: Uuid,
    pub region_id: Uuid,
    pub snapshot_id: Uuid,
    pub snapshot_addr: String,
    pub volume_references: i64,
    pub deleting: bool,
}

/// What a [`RegionSnapshot`] stands for.
#[verifier::ext_equal]
pub struct RegionSnapshotView {
    pub dataset_id: Uuid,
    pub region_id: Uuid,
    pub snapshot_id: Uuid,
    pub snapshot_addr: Seq<char>,
    pub volume_references: i64,
    pub deleting: bool,
}

impl View for RegionSnapshot {
    type V = RegionSnapshotView;

    open spec fn view(&self) -> RegionSnapshotView {
        RegionSnapshotView {
            dataset_id: self.dataset_id,
            region_id: self.region_id,
            snapshot_id: self.snapshot_id,
            snapshot_addr: self.snapshot_addr@,
            volume_references: self.volume_references,
            deleting: self.deleting,
        }
    }
}

impl Clone for RegionSnapshot {
    fn clone(&self) -> (r: Self)
        ensures
            r@ == self@,
    {
        RegionSnapshot {
            dataset_id: self.dataset_id,
            region_id: self.region_id,
            snapshot_id: self.snapshot_id,
            snapshot_addr: self.snapshot_addr.clone(),
            volume_references: self.volume_references,
            deleting: self.deleting,
        }
    }
}

impl RegionSnapshotView {
    /// Whether the snapshot is the one of a dataset, a region and a snapshot.
    pub open spec fn is_for(self, dataset_id: Uuid, region_id: Uuid, snapshot_id: Uuid) -> bool {
        self.dataset_id == dataset_id && self.region_id == region_id && self.snapshot_id
            == snapshot_id
    }
}

/// A dataset that holds regions.
#[derive(Copy, Clone, Debug, PartialEq, Eq, Structural)]
pub struct CrucibleDataset {
    pub id: Uuid,
    pub pool_id: Uuid,
    pub time_deleted: Option<Timestamp>,
}

/// A zpool.
#[derive(Copy, Clone, Debug, PartialEq, Eq, Structural)]
pub struct Zpool {
    pub id: Uuid,
    pub physical_disk_id: Uuid,
    pub time_deleted: Option<Timestamp>,
}

/// The operator-defined policy of a physical disk.
#[derive(Copy, Clone, Debug, PartialEq, Eq, Structural)]
pub enum PhysicalDiskPolicy {
    InService,
    Expunged,
}

/// A physical disk.
#[derive(Copy, Clone, Debug, PartialEq, Eq, Structural)]
pub struct PhysicalDisk {
    pub id: Uuid,
    pub disk_policy: PhysicalDiskPolicy,
}

/// The tables that the queries read.
#[derive(Debug)]
pub struct DataStore {
    pub physical_disks: Vec<PhysicalDisk>,
    pub zpools: Vec<Zpool>,
    pub crucible_datasets: Vec<CrucibleDataset>,
    pub region_snapshots: Vec<RegionSnapshot>,
}

/// Whether a disk with an id has a policy.
pub open spec fn disk_has_policy(
    disks: Seq<PhysicalDisk>,
    id: Uuid,
    policy: PhysicalDiskPolicy,
) -> bool {
    exists|i: int|
        0 <= i < disks.len() && (#[trigger] disks[i]).id == id && disks[i].disk_policy == policy
}

/// Whether a zpool with an id is on a disk with a policy. Deleted zpools do not
/// count.
pub open spec fn zpool_on_disk(
    zpools: Seq<Zpool>,
    disks: Seq<PhysicalDisk>,
    id: Uuid,
    policy: PhysicalDiskPolicy,
) -> bool {
    exists|i: int|
        0 <= i < zpools.len() && (#[trigger] zpools[i]).id == id && zpools[i].time_deleted is None
            && disk_has_policy(disks, zpools[i].physical_disk_id, policy)
}

/// Whether a dataset with an id is on a disk with a policy. Deleted datasets and
/// zpools do not count.
pub open spec fn dataset_on_disk(
    datasets: Seq<CrucibleDataset>,
    zpools: Seq<Zpool>,
    disks: Seq<PhysicalDisk>,
    id: Uuid,
    policy: PhysicalDiskPolicy,
) -> bool {
    exists|i: int|
        0 <= i < datasets.len() && (#[trigger] datasets[i]).id == id && datasets[i].time_deleted
            is None && zpool_on_disk(zpools, disks, datasets[i].pool_id, policy)
}

fn has_policy(disks: &Vec<PhysicalDisk>, id: Uuid, policy: PhysicalDiskPolicy) -> (r: bool)
    ensures
        r == disk_has_policy(disks@, id, policy),
{
    let mut i: usize = 0;
    while i < disks.len()
        invariant
            i <= disks.len(),
            forall|k: int|
                0 <= k < i ==> !((#[trigger] disks@[k]).id == id && disks@[k].disk_policy
                    == policy),
        decreases disks.len() - i,
    {
        if disks[i].id == id && disks[i].disk_policy == policy {
            return true;
        }
        i = i + 1;
    }
    false
}

fn pool_is_on(
    zpools: &Vec<Zpool>,
    disks: &Vec<PhysicalDisk>,
    id: Uuid,
    policy: PhysicalDiskPolicy,
) -> (r: bool)
    ensures
        r == zpool_on_disk(zpools@, disks@, id, policy),
{
    let mut i: usize = 0;
    while i < zpools.len()
        invariant
            i <= zpools.len(),
            forall|k: int|
                0 <= k < i ==> !((#[trigger] zpools@[k]).id == id && zpools@[k].time_deleted is None
                    && disk_has_policy(disks@, zpools@[k].physical_disk_id, policy)),
        decreases zpools.len() - i,
    {
        let z = &zpools[i];
        if z.id == id && z.time_deleted.is_none() && has_policy(disks, z.physical_disk_id, policy) {
            return true;
        }
        i = i + 1;
    }
    false
}

impl DataStore {
    /// Whether a dataset is on a disk with a policy.
    pub open spec fn on_disk(self, dataset_id: Uuid, policy: PhysicalDiskPolicy) -> bool {
        dataset_on_disk(
            self.crucible_datasets@,
            self.zpools@,
            self.physical_disks@,
            dataset_id,
            policy,
        )
    }

    fn is_on(&self, dataset_id: Uuid, policy: PhysicalDiskPolicy) -> (r: bool)
        ensures
            r == self.on_disk(dataset_id, policy),
    {
        let mut i: usize = 0;
        while i < self.crucible_datasets.len()
            invariant
                i <= self.crucible_datasets.len(),
                forall|k: int|
                    0 <= k < i ==> !((#[trigger] self.crucible_datasets@[k]).id == dataset_id
                        && self.crucible_datasets@[k].time_deleted is None && zpool_on_disk(
                        self.zpools@,
                        self.physical_disks@,
                        self.crucible_datasets@[k].pool_id,
                        policy,
                    )),
            decreases self.crucible_datasets.len() - i,
        {
            let d = &self.crucible_datasets[i];
            if d.id == dataset_id && d.time_deleted.is_none() && pool_is_on(
                &self.zpools,
                &self.physical_disks,
                d.pool_id,
                policy,
            ) {
                return true;
            }
            i = i + 1;
        }
        false
    }

    /// Where the snapshot of a dataset, a region and a snapshot stands.
    fn position(&self, dataset_id: Uuid, region_id: Uuid, snapshot_id: Uuid) -> (r: Option<usize>)
        ensures
            match r {
                Some(at) => at < self.region_snapshots.len() && views(
                    self.region_snapshots@,
                )[at as int].is_for(dataset_id, region_id, snapshot_id) && forall|k: int|
                    0 <= k < at ==> !(#[trigger] views(self.region_snapshots@)[k]).is_for(
                        dataset_id,
                        region_id,
                        snapshot_id,
                    ),
                None => forall|k: int|
                    0 <= k < self.region_snapshots.len() ==> !(#[trigger] views(
                        self.region_snapshots@,
                    )[k]).is_for(dataset_id, region_id, snapshot_id),
            },
    {
        let mut i: usize = 0;
        while i < self.region_snapshots.len()
            invariant
                i <= self.region_snapshots.len(),
                forall|k: int|
                    0 <= k < i ==> !(#[trigger] views(self.region_snapshots@)[k]).is_for(
                        dataset_id,
                        region_id,
                        snapshot_id,
                    ),
            decreases self.region_snapshots.len() - i,
        {
            let s = &self.region_snapshots[i];
            assert(views(self.region_snapshots@)[i as int] == s@);
            if s.dataset_id == dataset_id && s.region_id == region_id && s.snapshot_id
                == snapshot_id {
                return Some(i);
            }
            i = i + 1;
        }
        None
    }

    /// Adds a region snapshot. Nothing is done if there is one for its dataset,
    /// region and snapshot.
    pub fn region_snapshot_create(&mut self, region_snapshot: RegionSnapshot)
        ensures
            views(final(self).region_snapshots@) == created(
                views(old(self).region_snapshots@),
                region_snapshot@,
            ),
            final(self).physical_disks == old(self).physical_disks,
            final(self).zpools == old(self).zpools,
            final(self).crucible_datasets == old(self).crucible_datasets,
    {
        match self.position(
            region_snapshot.dataset_id,
            region_snapshot.region_id,
            region_snapshot.snapshot_id,
        ) {
            Some(at) => {
                assert(present(
                    views(self.region_snapshots@),
                    region_snapshot.dataset_id,
                    region_snapshot.region_id,
                    region_snapshot.snapshot_id,
                ));
            },
            None => {
                self.region_snapshots.push(region_snapshot);
                assert(views(self.region_snapshots@) =~= views(
                    old(self).region_snapshots@,
                ).push(region_snapshot@));
            },
        }
    }

    /// The region snapshot of a dataset, a region and a snapshot.
    pub fn region_snapshot_get(&self, dataset_id: Uuid, region_id: Uuid, snapshot_id: Uuid) -> (r:
        Option<RegionSnapshot>)
        ensures
            match r {
                Some(s) => found(
                    views(self.region_snapshots@),
                    dataset_id,
                    region_id,
                    snapshot_id,
                ) == Some(s@),
                None => found(
                    views(self.region_snapshots@),
                    dataset_id,
                    region_id,
                    snapshot_id,
                ) is None,
            },
    {
        let ghost list = views(self.region_snapshots@);
        match self.position(dataset_id, region_id, snapshot_id) {
            Some(at) => {
                proof {
                    lemma_found(list, dataset_id, region_id, snapshot_id, at as int);
                }
                Some(self.region_snapshots[at].clone())
            },
            None => {
                proof {
                    lemma_not_found(list, dataset_id, region_id, snapshot_id);
                }
                None
            },
        }
    }

    /// Removes the region snapshot of a dataset, a region and a snapshot, if
    /// there is one.
    pub fn region_snapshot_remove(&mut self, dataset_id: Uuid, region_id: Uuid, snapshot_id: Uuid)
        ensures
            views(final(self).region_snapshots@) == removed(
                views(old(self).region_snapshots@),
                dataset_id,
                region_id,
                snapshot_id,
            ),
            final(self).physical_disks == old(self).physical_disks,
            final(self).zpools == old(self).zpools,
            final(self).crucible_datasets == old(self).crucible_datasets,
    {
        let mut rest: Vec<RegionSnapshot> = Vec::new();
        let ghost all = views(self.region_snapshots@);
        let ghost kept = |s: RegionSnapshotView| !s.is_for(dataset_id, region_id, snapshot_id);
        let mut i: usize = 0;
        while i < self.region_snapshots.len()
            invariant
                i <= self.region_snapshots.len(),
                all == views(self.region_snapshots@),
                *self == *old(self),
                kept == (|s: RegionSnapshotView|
                    !s.is_for(dataset_id, region_id, snapshot_id)),
                views(rest@) == all.take(i as int).filter(kept),
            decreases self.region_snapshots.len() - i,
        {
            let s = &self.region_snapshots[i];
            let ghost so_far = views(rest@);
            proof {
                assert(all[i as int] == s@);
                assert(all.take(i + 1) =~= all.take(i as int).push(s@));
                all.take(i as int).lemma_filter_push(s@, kept);
            }
            if !(s.dataset_id == dataset_id && s.region_id == region_id && s.snapshot_id
                == snapshot_id) {
                rest.push(s.clone());
                assert(views(rest@) =~= so_far.push(s@));
            }
            i = i + 1;
        }
        assert(all.take(all.len() as int) =~= all);
        self.region_snapshots = rest;
    }

    /// The region snapshots that are on a disk with a policy, and of a snapshot
    /// if one is given.
    fn find(&self, policy: PhysicalDiskPolicy, snapshot_id: Option<Uuid>) -> (r: Vec<
        RegionSnapshot,
    >)
        ensures
            views(r@) == views(self.region_snapshots@).filter(
                |s: RegionSnapshotView|
                    self.on_disk(s.dataset_id, policy) && (snapshot_id is None || snapshot_id
                        == Some(s.snapshot_id)),
            ),
    {
        let mut out: Vec<RegionSnapshot> = Vec::new();
        let ghost all = views(self.region_snapshots@);
        let ghost wanted = |s: RegionSnapshotView|
            self.on_disk(s.dataset_id, policy) && (snapshot_id is None || snapshot_id == Some(
                s.snapshot_id,
            ));
        let mut i: usize = 0;
        while i < self.region_snapshots.len()
            invariant
                i <= self.region_snapshots.len(),
                all == views(self.region_snapshots@),
                wanted == (|s: RegionSnapshotView|
                    self.on_disk(s.dataset_id, policy) && (snapshot_id is None || snapshot_id
                        == Some(s.snapshot_id))),
                views(out@) == all.take(i as int).filter(wanted),
            decreases self.region_snapshots.len() - i,
        {
            let s = &self.region_snapshots[i];
            let ghost so_far = views(out@);
            proof {
                assert(all[i as int] == s@);
                assert(all.take(i + 1) =~= all.take(i as int).push(s@));
                all.take(i as int).lemma_filter_push(s@, wanted);
            }
            let of_snapshot = match snapshot_id {
                None => true,
                Some(id) => s.snapshot_id == id,
            };
            if of_snapshot && self.is_on(s.dataset_id, policy) {
                out.push(s.clone());
                assert(views(out@) =~= so_far.push(s@));
            }
            i = i + 1;
        }
        assert(all.take(all.len() as int) =~= all);
        out
    }

    /// Find region snapshots on expunged disks.
    pub fn find_region_snapshots_on_expunged_physical_disks(&self) -> (r: Vec<RegionSnapshot>)
        ensures
            views(r@) == self.on_expunged_disks(),
    {
        let r = self.find(PhysicalDiskPolicy::Expunged, None);
        proof {
            let a = |s: RegionSnapshotView|
                self.on_disk(s.dataset_id, PhysicalDiskPolicy::Expunged) && (None::<Uuid> is None
                    || None::<Uuid> == Some(s.snapshot_id));
            let b = |s: RegionSnapshotView|
                self.on_disk(s.dataset_id, PhysicalDiskPolicy::Expunged);
            assert(a =~= b);
        }
        r
    }

    /// Find region snapshots not on expunged disks that match a snapshot id.
    pub fn find_non_expunged_region_snapshots(&self, snapshot_id: Uuid) -> (r: Vec<RegionSnapshot>)
        ensures
            views(r@) == self.not_on_expunged_disks(snapshot_id),
    {
        let r = self.find(PhysicalDiskPolicy::InService, Some(snapshot_id));
        proof {
            let a = |s: RegionSnapshotView|
                self.on_disk(s.dataset_id, PhysicalDiskPolicy::InService) && (Some(snapshot_id)
                    is None || Some(snapshot_id) == Some(s.snapshot_id));
            let b = |s: RegionSnapshotView|
                self.on_disk(s.dataset_id, PhysicalDiskPolicy::InService) && s.snapshot_id
                    == snapshot_id;
            assert(a =~= b);
        }
        r
    }

    /// The region snapshots on expunged disks.
    pub open spec fn on_expunged_disks(self) -> Seq<RegionSnapshotView> {
        views(self.region_snapshots@).filter(
            |s: RegionSnapshotView| self.on_disk(s.dataset_id, PhysicalDiskPolicy::Expunged),
        )
    }

    /// The region snapshots of a snapshot on disks that are in service.
    pub open spec fn not_on_expunged_disks(self, snapshot_id: Uuid) -> Seq<RegionSnapshotView> {
        views(self.region_snapshots@).filter(
            |s: RegionSnapshotView|
                self.on_disk(s.dataset_id, PhysicalDiskPolicy::InService) && s.snapshot_id
                    == snapshot_id,
        )
    }
}

/// Whether a list has the region snapshot of a dataset, a region and a
/// snapshot.
pub open spec fn present(
    list: Seq<RegionSnapshotView>,
    dataset_id: Uuid,
    region_id: Uuid,
    snapshot_id: Uuid,
) -> bool {
    exists|i: int|
        0 <= i < list.len() && (#[trigger] list[i]).is_for(dataset_id, region_id, snapshot_id)
}

/// The list with one more region snapshot, unless there is one for the same
/// dataset, region and snapshot.
pub open spec fn created(list: Seq<RegionSnapshotView>, s: RegionSnapshotView) -> Seq<
    RegionSnapshotView,
> {
    if present(list, s.dataset_id, s.region_id, s.snapshot_id) {
        list
    } else {
        list.push(s)
    }
}

/// The first region snapshot of a dataset, a region and a snapshot.
pub open spec fn found(
    list: Seq<RegionSnapshotView>,
    dataset_id: Uuid,
    region_id: Uuid,
    snapshot_id: Uuid,
) -> Option<RegionSnapshotView>
    decreases list.len(),
{
    if list.len() == 0 {
        None
    } else if list[0].is_for(dataset_id, region_id, snapshot_id) {
        Some(list[0])
    } else {
        found(list.drop_first(), dataset_id, region_id, snapshot_id)
    }
}

/// The list without the region snapshot of a dataset, a region and a snapshot.
pub open spec fn removed(
    list: Seq<RegionSnapshotView>,
    dataset_id: Uuid,
    region_id: Uuid,
    snapshot_id: Uuid,
) -> Seq<RegionSnapshotView> {
    list.filter(|s: RegionSnapshotView| !s.is_for(dataset_id, region_id, snapshot_id))
}

proof fn lemma_found(
    list: Seq<RegionSnapshotView>,
    dataset_id: Uuid,
    region_id: Uuid,
    snapshot_id: Uuid,
    at: int,
)
    requires
        0 <= at < list.len(),
        list[at].is_for(dataset_id, region_id, snapshot_id),
        forall|k: int|
            0 <= k < at ==> !(#[trigger] list[k]).is_for(dataset_id, region_id, snapshot_id),
    ensures
        found(list, dataset_id, region_id, snapshot_id) == Some(list[at]),
    decreases list.len(),
{
    if at > 0 {
        let rest = list.drop_first();
        assert forall|k: int| 0 <= k < at - 1 implies !(#[trigger] rest[k]).is_for(
            dataset_id,
            region_id,
            snapshot_id,
        ) by {
            assert(rest[k] == list[k + 1]);
        }
        assert(!list[0].is_for(dataset_id, region_id, snapshot_id));
        lemma_found(rest, dataset_id, region_id, snapshot_id, at - 1);
    }
}

proof fn lemma_not_found(
    list: Seq<RegionSnapshotView>,
    dataset_id: Uuid,
    region_id: Uuid,
    snapshot_id: Uuid,
)
    requires
        forall|k: int|
            0 <= k < list.len() ==> !(#[trigger] list[k]).is_for(
                dataset_id,
                region_id,
                snapshot_id,
            ),
    ensures
        found(list, dataset_id, region_id, snapshot_id) is None,
    decreases list.len(),
{
    if list.len() > 0 {
        let rest = list.drop_first();
        assert forall|k: int| 0 <= k < rest.len() implies !(#[trigger] rest[k]).is_for(
            dataset_id,
            region_id,
            snapshot_id,
        ) by {
            assert(rest[k] == list[k + 1]);
        }
        lemma_not_found(rest, dataset_id, region_id, snapshot_id);
    }
}

/// A region snapshot that was created can be got.
pub proof fn law_get_after_create(list: Seq<RegionSnapshotView>, s: RegionSnapshotView)
    requires
        !present(list, s.dataset_id, s.region_id, s.snapshot_id),
    ensures
        found(created(list, s), s.dataset_id, s.region_id, s.snapshot_id) == Some(s),
{
    let all = created(list, s);
    assert forall|k: int| 0 <= k < list.len() implies !(#[trigger] all[k]).is_for(
        s.dataset_id,
        s.region_id,
        s.snapshot_id,
    ) by {
        assert(all[k] == list[k]);
    }
    assert(all[list.len() as int] == s);
    lemma_found(all, s.dataset_id, s.region_id, s.snapshot_id, list.len() as int);
}

/// Creating a region snapshot again changes nothing.
pub proof fn law_create_twice(list: Seq<RegionSnapshotView>, s: RegionSnapshotView)
    ensures
        created(created(list, s), s) == created(list, s),
{
    if !present(list, s.dataset_id, s.region_id, s.snapshot_id) {
        assert(created(list, s)[list.len() as int] == s);
    }
}

/// A region snapshot that was removed cannot be got.
pub proof fn law_get_after_remove(
    list: Seq<RegionSnapshotView>,
    dataset_id: Uuid,
    region_id: Uuid,
    snapshot_id: Uuid,
)
    ensures
        found(
            removed(list, dataset_id, region_id, snapshot_id),
            dataset_id,
            region_id,
            snapshot_id,
        ) is None,
{
    let kept = |s: RegionSnapshotView| !s.is_for(dataset_id, region_id, snapshot_id);
    let rest = removed(list, dataset_id, region_id, snapshot_id);
    assert forall|k: int| 0 <= k < rest.len() implies !(#[trigger] rest[k]).is_for(
        dataset_id,
        region_id,
        snapshot_id,
    ) by {
        list.lemma_filter_pred(kept, k);
    }
    lemma_not_found(rest, dataset_id, region_id, snapshot_id);
}

/// Where no two datasets, zpools or disks share an id, no dataset is both on an
/// expunged disk and on one in service.
pub proof fn law_not_both_expunged_and_in_service(store: DataStore, dataset_id: Uuid)
    requires
        forall|i: int, j: int|
            #![trigger store.physical_disks@[i], store.physical_disks@[j]]
            0 <= i < j < store.physical_disks@.len() ==> store.physical_disks@[i].id
                != store.physical_disks@[j].id,
        forall|i: int, j: int|
            #![trigger store.zpools@[i], store.zpools@[j]]
            0 <= i < j < store.zpools@.len() ==> store.zpools@[i].id != store.zpools@[j].id,
        forall|i: int, j: int|
            #![trigger store.crucible_datasets@[i], store.crucible_datasets@[j]]
            0 <= i < j < store.crucible_datasets@.len() ==> store.crucible_datasets@[i].id
                != store.crucible_datasets@[j].id,
    ensures
        !(store.on_disk(dataset_id, PhysicalDiskPolicy::Expunged) && store.on_disk(
            dataset_id,
            PhysicalDiskPolicy::InService,
        )),
{
}

/// Getting a region snapshot gives the first one that has the dataset, the region
/// and the snapshot that were asked for, and none just where none has all three.
pub proof fn law_get_finds_by_key(
    list: Seq<RegionSnapshotView>,
    dataset_id: Uuid,
    region_id: Uuid,
    snapshot_id: Uuid,
)
    ensures
        match found(list, dataset_id, region_id, snapshot_id) {
            Some(s) => {
                &&& s.dataset_id == dataset_id
                &&& s.region_id == region_id
                &&& s.snapshot_id == snapshot_id
                &&& exists|i: int|
                    {
                        &&& 0 <= i < list.len()
                        &&& #[trigger] list[i] == s
                        &&& forall|k: int|
                            0 <= k < i ==> (#[trigger] list[k]).dataset_id != dataset_id
                                || list[k].region_id != region_id || list[k].snapshot_id
                                != snapshot_id
                    }
            },
            None => forall|i: int|
                0 <= i < list.len() ==> (#[trigger] list[i]).dataset_id != dataset_id
                    || list[i].region_id != region_id || list[i].snapshot_id != snapshot_id,
        },
    decreases list.len(),
{
    if list.len() > 0 {
        let rest = list.drop_first();
        law_get_finds_by_key(rest, dataset_id, region_id, snapshot_id);
        let first = list[0];
        if !(first.dataset_id == dataset_id && first.region_id == region_id && first.snapshot_id
            == snapshot_id) {
            match found(rest, dataset_id, region_id, snapshot_id) {
                Some(s) => {
                    let i = choose|i: int|
                        {
                            &&& 0 <= i < rest.len()
                            &&& #[trigger] rest[i] == s
                            &&& forall|k: int|
                                0 <= k < i ==> (#[trigger] rest[k]).dataset_id != dataset_id
                                    || rest[k].region_id != region_id || rest[k].snapshot_id
                                    != snapshot_id
                        };
                    assert(list[i + 1] == s);
                    assert forall|k: int| 0 <= k < i + 1 implies (#[trigger] list[k]).dataset_id
                        != dataset_id || list[k].region_id != region_id || list[k].snapshot_id
                        != snapshot_id by {
                        if k > 0 {
                            assert(list[k] == rest[k - 1]);
                        }
                    }
                },
                None => {
                    assert forall|k: int|
                        0 <= k < list.len() implies (#[trigger] list[k]).dataset_id != dataset_id
                        || list[k].region_id != region_id || list[k].snapshot_id
                        != snapshot_id by {
                        if k > 0 {
                            assert(list[k] == rest[k - 1]);
                        }
                    }
                },
            }
        } else {
            assert(list[0] == first);
        }
    }
}

/// Removing a region snapshot leaves every other one as it was: what is got for a
/// dataset, a region and a snapshot of which one differs is the same as before.
pub proof fn law_remove_leaves_others(
    list: Seq<RegionSnapshotView>,
    dataset_id: Uuid,
    region_id: Uuid,
    snapshot_id: Uuid,
    other_dataset_id: Uuid,
    other_region_id: Uuid,
    other_snapshot_id: Uuid,
)
    requires
        other_dataset_id != dataset_id || other_region_id != region_id || other_snapshot_id
            != snapshot_id,
    ensures
        found(
            removed(list, dataset_id, region_id, snapshot_id),
            other_dataset_id,
            other_region_id,
            other_snapshot_id,
        ) == found(list, other_dataset_id, other_region_id, other_snapshot_id),
    decreases list.len(),
{
    reveal_with_fuel(found, 2);
    let kept = |s: RegionSnapshotView|
        !(s.dataset_id == dataset_id && s.region_id == region_id && s.snapshot_id == snapshot_id);
    assert(removed(list, dataset_id, region_id, snapshot_id) == list.filter(kept)) by {
        let given = |s: RegionSnapshotView| !s.is_for(dataset_id, region_id, snapshot_id);
        assert(given =~= kept);
    }
    if list.len() == 0 {
        assert(list.filter(kept) =~= list) by {
            reveal(Seq::filter);
        }
    } else {
        let (init, last) = (list.drop_last(), list.last());
        law_remove_leaves_others(
            init,
            dataset_id,
            region_id,
            snapshot_id,
            other_dataset_id,
            other_region_id,
            other_snapshot_id,
        );
        assert(removed(init, dataset_id, region_id, snapshot_id) == init.filter(kept)) by {
            let given = |s: RegionSnapshotView| !s.is_for(dataset_id, region_id, snapshot_id);
            assert(given =~= kept);
        }
        assert(list =~= init.push(last));
        init.lemma_filter_push(last, kept);
        lemma_found_push(init, last, other_dataset_id, other_region_id, other_snapshot_id);
        if kept(last) {
            lemma_found_push(
                init.filter(kept),
                last,
                other_dataset_id,
                other_region_id,
                other_snapshot_id,
            );
        }
    }
}

proof fn lemma_found_push(
    list: Seq<RegionSnapshotView>,
    s: RegionSnapshotView,
    dataset_id: Uuid,
    region_id: Uuid,
    snapshot_id: Uuid,
)
    ensures
        found(list.push(s), dataset_id, region_id, snapshot_id) == match found(
            list,
            dataset_id,
            region_id,
            snapshot_id,
        ) {
            Some(t) => Some(t),
            None => if s.dataset_id == dataset_id && s.region_id == region_id && s.snapshot_id
                == snapshot_id {
                Some(s)
            } else {
                None
            },
        },
    decreases list.len(),
{
    let all = list.push(s);
    assert(all.drop_first() =~= if list.len() > 0 {
        list.drop_first().push(s)
    } else {
        Seq::empty()
    });
    if list.len() > 0 {
        lemma_found_push(list.drop_first(), s, dataset_id, region_id, snapshot_id);
    } else {
        assert(all[0] == s);
        assert(found(all.drop_first(), dataset_id, region_id, snapshot_id) is None);
    }
}

/// Removing a region snapshot takes out no others, and brings in none: of each
/// that is not the one to remove there are as many as before.
pub proof fn law_remove_keeps_others(
    list: Seq<RegionSnapshotView>,
    dataset_id: Uuid,
    region_id: Uuid,
    snapshot_id: Uuid,
    s: RegionSnapshotView,
)
    ensures
        removed(list, dataset_id, region_id, snapshot_id).contains(s) <==> list.contains(s) && (
        s.dataset_id != dataset_id || s.region_id != region_id || s.snapshot_id != snapshot_id),
        s.dataset_id != dataset_id || s.region_id != region_id || s.snapshot_id != snapshot_id
            ==> removed(list, dataset_id, region_id, snapshot_id).to_multiset().count(s)
            == list.to_multiset().count(s),
    decreases list.len(),
{
    broadcast use vstd::seq_lib::group_to_multiset_ensures;

    let kept = |s: RegionSnapshotView|
        !(s.dataset_id == dataset_id && s.region_id == region_id && s.snapshot_id == snapshot_id);
    let given = |s: RegionSnapshotView| !s.is_for(dataset_id, region_id, snapshot_id);
    assert(given =~= kept);
    if list.len() == 0 {
        assert(list.filter(kept) =~= list) by {
            reveal(Seq::filter);
        }
    } else {
        let (init, last) = (list.drop_last(), list.last());
        law_remove_keeps_others(init, dataset_id, region_id, snapshot_id, s);
        assert(list =~= init.push(last));
        init.lemma_filter_push(last, kept);
        assert(list.contains(s) <==> init.contains(s) || s == last) by {
            if init.contains(s) {
                let i = choose|i: int| 0 <= i < init.len() && init[i] == s;
                assert(list[i] == s);
            }
            if list.contains(s) {
                let i = choose|i: int| 0 <= i < list.len() && list[i] == s;
                if i < init.len() {
                    assert(init[i] == s);
                }
            }
            assert(list[list.len() - 1] == last);
        }
        let (a, b) = (init.filter(kept), list.filter(kept));
        assert(b.contains(s) <==> a.contains(s) || (kept(last) && s == last)) by {
            if kept(last) {
                assert(b == a.push(last));
                if a.contains(s) {
                    let i = choose|i: int| 0 <= i < a.len() && a[i] == s;
                    assert(b[i] == s);
                }
                if b.contains(s) {
                    let i = choose|i: int| 0 <= i < b.len() && b[i] == s;
                    if i < a.len() {
                        assert(a[i] == s);
                    }
                }
                assert(b[a.len() as int] == last);
            }
        }
    }
}

/// Creating a region snapshot leaves those that were there in their places, with
/// all they hold. Where one has the same dataset, region and snapshot, nothing is
/// added, and otherwise the new one comes last.
pub proof fn law_create_adds_at_most_one(list: Seq<RegionSnapshotView>, s: RegionSnapshotView)
    ensures
        ({
            let there = exists|i: int|
                0 <= i < list.len() && (#[trigger] list[i]).dataset_id == s.dataset_id
                    && list[i].region_id == s.region_id && list[i].snapshot_id == s.snapshot_id;
            &&& there ==> created(list, s) == list
            &&& !there ==> created(list, s) == list.push(s)
        }),
{
    if present(list, s.dataset_id, s.region_id, s.snapshot_id) {
        let i = choose|i: int|
            0 <= i < list.len() && (#[trigger] list[i]).is_for(
                s.dataset_id,
                s.region_id,
                s.snapshot_id,
            );
        assert(list[i].dataset_id == s.dataset_id);
    } else {
        assert forall|i: int| 0 <= i < list.len() implies !((#[trigger] list[i]).dataset_id
            == s.dataset_id && list[i].region_id == s.region_id && list[i].snapshot_id
            == s.snapshot_id) by {
            assert(!list[i].is_for(s.dataset_id, s.region_id, s.snapshot_id));
        }
    }
}

/// A dataset is on a disk with a policy just where rows of the three tables show
/// it: of the dataset and of its zpool, neither of them deleted, and of the disk.
pub proof fn law_on_disk_follows_the_tables(
    store: DataStore,
    dataset_id: Uuid,
    policy: PhysicalDiskPolicy,
)
    ensures
        store.on_disk(dataset_id, policy) <==> exists|d: int, z: int, p: int|
            #![trigger store.crucible_datasets@[d], store.zpools@[z], store.physical_disks@[p]]
            {
                &&& 0 <= d < store.crucible_datasets@.len()
                &&& 0 <= z < store.zpools@.len()
                &&& 0 <= p < store.physical_disks@.len()
                &&& store.crucible_datasets@[d].id == dataset_id
                &&& store.crucible_datasets@[d].time_deleted is None
                &&& store.zpools@[z].id == store.crucible_datasets@[d].pool_id
                &&& store.zpools@[z].time_deleted is None
                &&& store.physical_disks@[p].id == store.zpools@[z].physical_disk_id
                &&& store.physical_disks@[p].disk_policy == policy
            },
{
    let (datasets, zpools, disks) = (
        store.crucible_datasets@,
        store.zpools@,
        store.physical_disks@,
    );
    if store.on_disk(dataset_id, policy) {
        let d = choose|i: int|
            0 <= i < datasets.len() && (#[trigger] datasets[i]).id == dataset_id
                && datasets[i].time_deleted is None && zpool_on_disk(
                zpools,
                disks,
                datasets[i].pool_id,
                policy,
            );
        let z = choose|i: int|
            0 <= i < zpools.len() && (#[trigger] zpools[i]).id == datasets[d].pool_id
                && zpools[i].time_deleted is None && disk_has_policy(
                disks,
                zpools[i].physical_disk_id,
                policy,
            );
        let p = choose|i: int|
            0 <= i < disks.len() && (#[trigger] disks[i]).id == zpools[z].physical_disk_id
                && disks[i].disk_policy == policy;
        assert(datasets[d].id == dataset_id && zpools[z].time_deleted is None
            && disks[p].disk_policy == policy);
    }
    if exists|d: int, z: int, p: int|
        #![trigger datasets[d], zpools[z], disks[p]]
        {
            &&& 0 <= d < datasets.len() && 0 <= z < zpools.len() && 0 <= p < disks.len()
            &&& datasets[d].id == dataset_id && datasets[d].time_deleted is None
            &&& zpools[z].id == datasets[d].pool_id && zpools[z].time_deleted is None
            &&& disks[p].id == zpools[z].physical_disk_id && disks[p].disk_policy == policy
        } {
        let (d, z, p) = choose|d: int, z: int, p: int|
            #![trigger datasets[d], zpools[z], disks[p]]
            {
                &&& 0 <= d < datasets.len() && 0 <= z < zpools.len() && 0 <= p < disks.len()
                &&& datasets[d].id == dataset_id && datasets[d].time_deleted is None
                &&& zpools[z].id == datasets[d].pool_id && zpools[z].time_deleted is None
                &&& disks[p].id == zpools[z].physical_disk_id && disks[p].disk_policy == policy
            };
        assert(disk_has_policy(disks, zpools[z].physical_disk_id, policy));
        assert(zpool_on_disk(zpools, disks, datasets[d].pool_id, policy));
        assert(datasets[d].id == dataset_id);
    }
}

/// The region snapshots that are found are those of the table, in their order and
/// with all they hold, whose dataset is on a disk of the right policy: one that is
/// expunged, or one in service where those of a snapshot are asked for.
pub proof fn law_found_are_those_on_disks(store: DataStore, snapshot_id: Uuid)
    ensures
        store.on_expunged_disks() == views(store.region_snapshots@).filter(
            |s: RegionSnapshotView| store.on_disk(s.dataset_id, PhysicalDiskPolicy::Expunged),
        ),
        store.not_on_expunged_disks(snapshot_id) == views(store.region_snapshots@).filter(
            |s: RegionSnapshotView|
                s.snapshot_id == snapshot_id && store.on_disk(
                    s.dataset_id,
                    PhysicalDiskPolicy::InService,
                ),
        ),
{
    let a = |s: RegionSnapshotView|
        s.snapshot_id == snapshot_id && store.on_disk(s.dataset_id, PhysicalDiskPolicy::InService);
    assert(a =~= |s: RegionSnapshotView|
        store.on_disk(s.dataset_id, PhysicalDiskPolicy::InService) && s.snapshot_id
            == snapshot_id);
}

/// A region snapshot stands for what its fields hold.
pub proof fn law_region_snapshot_stands_for_itself(s: RegionSnapshot)
    ensures
        s@.dataset_id == s.dataset_id,
        s@.region_id == s.region_id,
        s@.snapshot_id == s.snapshot_id,
        s@.snapshot_addr == s.snapshot_addr@,
        s@.volume_references == s.volume_references,
        s@.deleting == s.deleting,
{
}

} // verus!
