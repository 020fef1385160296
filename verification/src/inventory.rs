//! What an inventory collection found.

use std::collections::BTreeMap;

use vstd::prelude::*;

use crate::deployment::{OmicronZonesConfig, OmicronZonesView};
use crate::text::Uuid;
use crate::time::Timestamp;

verus! {

/// The zones that a sled agent reported.
#[derive(Clone, Debug)]
pub struct OmicronZonesFound {
    pub time_collected: Timestamp,
    pub source: String,
    pub sled_id: Uuid,
    pub zones: OmicronZonesConfig,
}

/// The part and serial number by which a piece of hardware is known.
#[derive(Debug)]
pub struct BaseboardId {
    pub part_number: String,
    pub serial_number: String,
}

/// What a [`BaseboardId`] stands for.
#[verifier::ext_equal]
pub struct BaseboardView {
    pub part_number: Seq<char>,
    pub serial_number: Seq<char>,
}

impl View for BaseboardId {
    type V = BaseboardView;

    open spec fn view(&self) -> BaseboardView {
        BaseboardView { part_number: self.part_number@, serial_number: self.serial_number@ }
    }
}

impl Clone for BaseboardId {
    fn clone(&self) -> (r: Self)
        ensures
            r@ == self@,
    {
        BaseboardId {
            part_number: self.part_number.clone(),
            serial_number: self.serial_number.clone(),
        }
    }
}

/// What was found of one piece of hardware: a service processor or a root of
/// trust, in its serialized form.
#[derive(Clone, Debug)]
pub struct HardwareFound {
    pub baseboard_id: BaseboardId,
    pub details: String,
}

/// What a [`HardwareFound`] stands for.
#[verifier::ext_equal]
pub struct HardwareView {
    pub baseboard_id: BaseboardView,
    pub details: Seq<char>,
}

impl View for HardwareFound {
    type V = HardwareView;

    open spec fn view(&self) -> HardwareView {
        HardwareView { baseboard_id: self.baseboard_id@, details: self.details@ }
    }
}

/// The details found for a baseboard: those of its first entry in the list.
pub open spec fn details_of(list: Seq<HardwareView>, id: BaseboardView) -> Option<Seq<char>>
    decreases list.len(),
{
    if list.len() == 0 {
        None
    } else if list[0].baseboard_id == id {
        Some(list[0].details)
    } else {
        details_of(list.drop_first(), id)
    }
}

/// What a sled agent reported of itself.
#[derive(Debug)]
pub struct SledAgent {
    pub baseboard_id: Option<BaseboardId>,
    pub details: String,
}

/// What a [`SledAgent`] stands for.
#[verifier::ext_equal]
pub struct SledAgentView {
    pub baseboard_id: Option<BaseboardView>,
    pub details: Seq<char>,
}

impl View for SledAgent {
    type V = SledAgentView;

    open spec fn view(&self) -> SledAgentView {
        SledAgentView {
            baseboard_id: match self.baseboard_id {
                Some(id) => Some(id@),
                None => None,
            },
            details: self.details@,
        }
    }
}

impl Clone for SledAgent {
    fn clone(&self) -> (r: Self)
        ensures
            r@ == self@,
    {
        SledAgent {
            baseboard_id: match &self.baseboard_id {
                Some(id) => Some(id.clone()),
                None => None,
            },
            details: self.details.clone(),
        }
    }
}

/// Results of collecting inventory from various sources.
#[derive(Clone, Debug)]
pub struct Collection {
    /// unique identifier for this collection
    pub id: Uuid,
    /// Omicron zones found, by *sled* id
    pub omicron_zones: BTreeMap<Uuid, OmicronZonesFound>,
    /// Sled agent information, by *sled* id
    pub sled_agents: BTreeMap<Uuid, SledAgent>,
    /// service processors found
    pub sps: Vec<HardwareFound>,
    /// roots of trust found
    pub rots: Vec<HardwareFound>,
}

/// What the zones found on each sled stand for.
pub open spec fn zones_found(map: Map<Uuid, OmicronZonesFound>) -> Map<Uuid, OmicronZonesView> {
    map.map_values(|f: OmicronZonesFound| f.zones@)
}

} // verus!
