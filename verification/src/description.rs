//! Describes the sleds of a simulated system.

use std::collections::BTreeMap;
use std::sync::Arc;

use vstd::prelude::*;

use crate::deployment::{SledPolicy, SledResources, SledResourcesView, SledState};
use crate::inventory::{
    details_of, BaseboardId, BaseboardView, HardwareFound, HardwareView, SledAgent, SledAgentView,
};
use crate::net::IpRange;
use crate::ordered::{get, put};
use crate::sort::views;
use crate::text::{uuid_text, uuid_to_string, Uuid};

verus! {

/// What an inventory collection found of the hardware of a sled.
#[derive(Debug)]
pub struct SledHwInventory {
    pub baseboard_id: BaseboardId,
    /// the service processor
    pub sp: String,
    /// the root of trust
    pub rot: String,
}

/// What a [`SledHwInventory`] stands for.
#[verifier::ext_equal]
pub struct SledHwView {
    pub baseboard_id: BaseboardView,
    pub sp: Seq<char>,
    pub rot: Seq<char>,
}

impl View for SledHwInventory {
    type V = SledHwView;

    open spec fn view(&self) -> SledHwView {
        SledHwView { baseboard_id: self.baseboard_id@, sp: self.sp@, rot: self.rot@ }
    }
}

/// What was found of the hardware of a sled: its service processor and its root
/// of trust, if both were found.
pub open spec fn hardware_of(
    agent: SledAgentView,
    sps: Seq<HardwareView>,
    rots: Seq<HardwareView>,
) -> Option<SledHwView> {
    match agent.baseboard_id {
        Some(id) => match (details_of(sps, id), details_of(rots, id)) {
            (Some(sp), Some(rot)) => Some(SledHwView { baseboard_id: id, sp, rot }),
            _ => None,
        },
        None => None,
    }
}

fn find_details<'a>(list: &'a Vec<HardwareFound>, id: &BaseboardId) -> (r: Option<&'a String>)
    ensures
        match r {
            Some(details) => details_of(views(list@), id@) == Some(details@),
            None => details_of(views(list@), id@) is None,
        },
{
    let mut i: usize = 0;
    let ghost all = views(list@);
    assert(all.skip(0) =~= all);
    while i < list.len()
        invariant
            i <= list.len(),
            all == views(list@),
            details_of(all, id@) == details_of(all.skip(i as int), id@),
        decreases list.len() - i,
    {
        let found = &list[i];
        assert(all.skip(i as int)[0] == found@);
        if found.baseboard_id.part_number == id.part_number && found.baseboard_id.serial_number
            == id.serial_number {
            assert(found@.baseboard_id =~= id@);
            return Some(&found.details);
        }
        assert(found@.baseboard_id != id@);
        assert(all.skip(i as int).drop_first() =~= all.skip(i + 1));
        i = i + 1;
    }
    None
}

/// What was found of the hardware of a sled.
pub fn find_hardware(
    agent: &SledAgent,
    sps: &Vec<HardwareFound>,
    rots: &Vec<HardwareFound>,
) -> (r: Option<SledHwInventory>)
    ensures
        match r {
            Some(hw) => hardware_of(agent@, views(sps@), views(rots@)) == Some(hw@),
            None => hardware_of(agent@, views(sps@), views(rots@)) is None,
        },
{
    match &agent.baseboard_id {
        Some(id) => match (find_details(sps, id), find_details(rots, id)) {
            (Some(sp), Some(rot)) => Some(
                SledHwInventory { baseboard_id: id.clone(), sp: sp.clone(), rot: rot.clone() },
            ),
            _ => None,
        },
        None => None,
    }
}

/// A sled of a simulated system.
#[derive(Debug)]
pub struct Sled {
    pub policy: SledPolicy,
    pub state: SledState,
    pub resources: SledResources,
    pub inventory_sp: Option<SledHwInventory>,
    pub inventory_sled_agent: SledAgent,
}

/// What a [`Sled`] stands for.
#[verifier::ext_equal]
pub struct SledView {
    pub policy: SledPolicy,
    pub state: SledState,
    pub resources: SledResourcesView,
    pub inventory_sp: Option<SledHwView>,
    pub inventory_sled_agent: SledAgentView,
}

impl View for Sled {
    type V = SledView;

    open spec fn view(&self) -> SledView {
        SledView {
            policy: self.policy,
            state: self.state,
            resources: self.resources@,
            inventory_sp: match self.inventory_sp {
                Some(hw) => Some(hw@),
                None => None,
            },
            inventory_sled_agent: self.inventory_sled_agent@,
        }
    }
}

/// Describes the sleds of a simulated system.
///
/// This resembles what we get from the `sled` table in a real system. It also
/// contains enough information to generate inventory collections that describe
/// the system.
#[derive(Debug)]
pub struct SystemDescription {
    sleds: BTreeMap<Uuid, Arc<Sled>>,
    service_ip_pool_ranges: Vec<IpRange>,
}

/// What a [`SystemDescription`] stands for.
#[verifier::ext_equal]
pub struct DescriptionView {
    pub sleds: Map<Uuid, SledView>,
    pub service_ip_pool_ranges: Seq<IpRange>,
}

impl DescriptionView {
    /// Whether there are any sleds.
    pub open spec fn has_sleds(self) -> bool {
        exists|id: Uuid| self.sleds.contains_key(id)
    }
}

impl View for SystemDescription {
    type V = DescriptionView;

    closed spec fn view(&self) -> DescriptionView {
        DescriptionView {
            sleds: self.sleds@.map_values(|s: Arc<Sled>| (*s)@),
            service_ip_pool_ranges: self.service_ip_pool_ranges@,
        }
    }
}

/// A sled was added under the id of one that is already there.
#[derive(Copy, Clone, Debug, PartialEq, Eq, Structural)]
pub struct DuplicateSled {
    pub sled_id: Uuid,
}

impl DuplicateSled {
    /// The text of the error.
    pub open spec fn text(self) -> Seq<char> {
        "attempted to add sled with the same id as an existing one: "@ + uuid_text(self.sled_id)
    }

    /// The text of the error.
    pub fn to_text(&self) -> (r: String)
        ensures
            r@ == self.text(),
    {
        "attempted to add sled with the same id as an existing one: ".to_owned().concat(
            uuid_to_string(self.sled_id).as_str(),
        )
    }
}

impl SystemDescription {
    /// A description without sleds.
    pub fn new() -> (r: Self)
        ensures
            r@.sleds == Map::<Uuid, SledView>::empty(),
            r@.service_ip_pool_ranges == Seq::<IpRange>::empty(),
    {
        let r = SystemDescription { sleds: BTreeMap::new(), service_ip_pool_ranges: Vec::new() };
        assert(r@.sleds =~= Map::<Uuid, SledView>::empty());
        r
    }

    /// Whether there are any sleds.
    pub fn has_sleds(&self) -> (r: bool)
        ensures
            r == self@.has_sleds(),
    {
        let empty = self.sleds.is_empty();
        proof {
            if empty {
                assert forall|id: Uuid| !self@.sleds.contains_key(id) by {
                    assert(!self.sleds@.dom().contains(id));
                }
            } else {
                let id = choose|id: Uuid| self.sleds@.dom().contains(id);
                if forall|id: Uuid| !self.sleds@.dom().contains(id) {
                    assert(self.sleds@ =~= Map::empty());
                }
                assert(self@.sleds.contains_key(id));
            }
        }
        !empty
    }

    /// The sled under an id.
    pub fn get_sled(&self, id: Uuid) -> (r: Option<&Sled>)
        ensures
            match r {
                Some(s) => self@.sleds.contains_key(id) && self@.sleds[id] == s@,
                None => !self@.sleds.contains_key(id),
            },
    {
        match get(&self.sleds, id) {
            Some(s) => Some(&**s),
            None => None,
        }
    }

    /// Adds a sled, with what an inventory collection found of it.
    ///
    /// A sled under an id that is already there is not added.
    pub fn sled_full(
        &mut self,
        sled_id: Uuid,
        sled_policy: SledPolicy,
        sled_state: SledState,
        sled_resources: SledResources,
        inventory_sp: Option<SledHwInventory>,
        inventory_sled_agent: &SledAgent,
    ) -> (r: Result<(), DuplicateSled>)
        ensures
            match r {
                Ok(_) => {
                    &&& !old(self)@.sleds.contains_key(sled_id)
                    &&& final(self)@.sleds == old(self)@.sleds.insert(
                        sled_id,
                        (SledView {
                            policy: sled_policy,
                            state: sled_state,
                            resources: sled_resources@,
                            inventory_sp: match inventory_sp {
                                Some(hw) => Some(hw@),
                                None => None,
                            },
                            inventory_sled_agent: inventory_sled_agent@,
                        }),
                    )
                    &&& final(self)@.service_ip_pool_ranges == old(self)@.service_ip_pool_ranges
                },
                Err(e) => {
                    &&& old(self)@.sleds.contains_key(sled_id)
                    &&& e.sled_id == sled_id
                    &&& final(self)@ == old(self)@
                },
            },
    {
        if get(&self.sleds, sled_id).is_some() {
            return Err(DuplicateSled { sled_id });
        }
        let sled = Sled {
            policy: sled_policy,
            state: sled_state,
            resources: sled_resources,
            inventory_sp,
            inventory_sled_agent: inventory_sled_agent.clone(),
        };
        put(&mut self.sleds, sled_id, Arc::new(sled));
        assert(self@.sleds =~= old(self)@.sleds.insert(sled_id, sled@));
        Ok(())
    }

    /// Sets the ranges of the service IP pool.
    pub fn service_ip_pool_ranges(&mut self, ranges: Vec<IpRange>)
        ensures
            final(self)@.sleds == old(self)@.sleds,
            final(self)@.service_ip_pool_ranges == ranges@,
    {
        self.service_ip_pool_ranges = ranges;
    }

    /// The ranges of the service IP pool.
    pub fn get_service_ip_pool_ranges(&self) -> (r: &Vec<IpRange>)
        ensures
            r@ == self@.service_ip_pool_ranges,
    {
        &self.service_ip_pool_ranges
    }
}

impl Clone for SystemDescription {
    fn clone(&self) -> (r: Self)
        ensures
            r@ == self@,
    {
        let ranges = self.service_ip_pool_ranges.clone();
        assert(ranges@ =~= self.service_ip_pool_ranges@);
        SystemDescription { sleds: self.sleds.clone(), service_ip_pool_ranges: ranges }
    }
}

} // verus!
