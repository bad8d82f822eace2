//! The first generation of the event-log records.
//!
//! The composite log key began its life here before moving beside the
//! other identifiers; `EventKey` remains as its name in this module.

pub mod silkworms;

pub use crate::items::EventId as EventKey;

use vstd::prelude::*;

verus! {

/// The species an event-log plant record can carry.
#[derive(Debug, PartialEq, Eq, Structural, Clone, Copy)]
pub enum PlantTypes {
    Lettuce,
    Tomato,
}

/// The wire tag of each `PlantTypes` variant.
pub open spec fn spec_plant_types_tag(v: PlantTypes) -> u8 {
    match v {
        PlantTypes::Lettuce => 0,
        PlantTypes::Tomato => 1,
    }
}

/// The variant of `PlantTypes` carrying a given wire tag.
pub open spec fn spec_plant_types_from_tag(t: u8) -> Option<PlantTypes> {
    if t == 0 {
        Some(PlantTypes::Lettuce)
    } else if t == 1 {
        Some(PlantTypes::Tomato)
    } else {
        None
    }
}

impl PlantTypes {
    pub fn tag(&self) -> (r: u8)
        ensures
            r == spec_plant_types_tag(*self),
    {
        match self {
            PlantTypes::Lettuce => 0,
            PlantTypes::Tomato => 1,
        }
    }

    pub fn from_tag(t: u8) -> (r: Option<PlantTypes>)
        ensures
            r == spec_plant_types_from_tag(t),
            r is Some <==> t < 2,
            r matches Some(v) ==> spec_plant_types_tag(v) == t,
            forall|v: PlantTypes| spec_plant_types_tag(v) == t ==> r == Some(v),
    {
        match t {
            0 => Some(PlantTypes::Lettuce),
            1 => Some(PlantTypes::Tomato),
            _ => None,
        }
    }
}
/// A plant record of the event log.
#[derive(Debug, PartialEq, Eq, Structural, Clone, Copy)]
pub struct Plant {
    pub plant_type: PlantTypes,
}

impl Plant {
    /// A fixed specimen for each small `id`, used by the storage tests.
    pub fn test(id: u8) -> (r: Plant)
        ensures
            id == 0 ==> r == (Plant { plant_type: PlantTypes::Lettuce }),
            id != 0 ==> r == (Plant { plant_type: PlantTypes::Tomato }),
    {
        match id {
            0 => Plant { plant_type: PlantTypes::Lettuce },
            _ => Plant { plant_type: PlantTypes::Tomato },
        }
    }
}

} // verus!
