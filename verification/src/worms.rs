//! Worm records: species, sex and lifecycle stage.

use crate::registry::{RecordKind, TypeRegistry};
use vstd::prelude::*;

verus! {

/// The (possibly uncertain) sex of an individual worm.
#[derive(Debug, PartialEq, Eq, Structural, Clone, Copy)]
pub enum Gender {
    Unknown,
    Male,
    SuspectedMale,
    Female,
    SuspectedFemale,
}

/// The wire tag of each `Gender` variant.
pub open spec fn spec_gender_tag(v: Gender) -> u8 {
    match v {
        Gender::Unknown => 0,
        Gender::Male => 1,
        Gender::SuspectedMale => 2,
        Gender::Female => 3,
        Gender::SuspectedFemale => 4,
    }
}

/// The variant of `Gender` carrying a given wire tag.
pub open spec fn spec_gender_from_tag(t: u8) -> Option<Gender> {
    if t == 0 {
        Some(Gender::Unknown)
    } else if t == 1 {
        Some(Gender::Male)
    } else if t == 2 {
        Some(Gender::SuspectedMale)
    } else if t == 3 {
        Some(Gender::Female)
    } else if t == 4 {
        Some(Gender::SuspectedFemale)
    } else {
        None
    }
}

impl Gender {
    pub fn tag(&self) -> (r: u8)
        ensures
            r == spec_gender_tag(*self),
    {
        match self {
            Gender::Unknown => 0,
            Gender::Male => 1,
            Gender::SuspectedMale => 2,
            Gender::Female => 3,
            Gender::SuspectedFemale => 4,
        }
    }

    pub fn from_tag(t: u8) -> (r: Option<Gender>)
        ensures
            r == spec_gender_from_tag(t),
            r is Some <==> t < 5,
            r matches Some(v) ==> spec_gender_tag(v) == t,
            forall|v: Gender| spec_gender_tag(v) == t ==> r == Some(v),
    {
        match t {
            0 => Some(Gender::Unknown),
            1 => Some(Gender::Male),
            2 => Some(Gender::SuspectedMale),
            3 => Some(Gender::Female),
            4 => Some(Gender::SuspectedFemale),
            _ => None,
        }
    }
}
/// The kept worm species.
#[derive(Debug, PartialEq, Eq, Structural, Clone, Copy)]
pub enum WormType {
    KingWorm,
    SilkWorm,
}

/// The wire tag of each `WormType` variant.
pub open spec fn spec_worm_type_tag(v: WormType) -> u8 {
    match v {
        WormType::KingWorm => 0,
        WormType::SilkWorm => 1,
    }
}

/// The variant of `WormType` carrying a given wire tag.
pub open spec fn spec_worm_type_from_tag(t: u8) -> Option<WormType> {
    if t == 0 {
        Some(WormType::KingWorm)
    } else if t == 1 {
        Some(WormType::SilkWorm)
    } else {
        None
    }
}

impl WormType {
    pub fn tag(&self) -> (r: u8)
        ensures
            r == spec_worm_type_tag(*self),
    {
        match self {
            WormType::KingWorm => 0,
            WormType::SilkWorm => 1,
        }
    }

    pub fn from_tag(t: u8) -> (r: Option<WormType>)
        ensures
            r == spec_worm_type_from_tag(t),
            r is Some <==> t < 2,
            r matches Some(v) ==> spec_worm_type_tag(v) == t,
            forall|v: WormType| spec_worm_type_tag(v) == t ==> r == Some(v),
    {
        match t {
            0 => Some(WormType::KingWorm),
            1 => Some(WormType::SilkWorm),
            _ => None,
        }
    }
}
/// A worm's lifecycle stage.
#[derive(Debug, PartialEq, Eq, Structural, Clone, Copy)]
pub enum Stage {
    Egg,
    Larvae,
    Isolated,
    Pupa,
    Adult,
    Dead,
}

/// The wire tag of each `Stage` variant.
pub open spec fn spec_worm_stage_tag(v: Stage) -> u8 {
    match v {
        Stage::Egg => 0,
        Stage::Larvae => 1,
        Stage::Isolated => 2,
        Stage::Pupa => 3,
        Stage::Adult => 4,
        Stage::Dead => 5,
    }
}

/// The variant of `Stage` carrying a given wire tag.
pub open spec fn spec_worm_stage_from_tag(t: u8) -> Option<Stage> {
    if t == 0 {
        Some(Stage::Egg)
    } else if t == 1 {
        Some(Stage::Larvae)
    } else if t == 2 {
        Some(Stage::Isolated)
    } else if t == 3 {
        Some(Stage::Pupa)
    } else if t == 4 {
        Some(Stage::Adult)
    } else if t == 5 {
        Some(Stage::Dead)
    } else {
        None
    }
}

impl Stage {
    pub fn tag(&self) -> (r: u8)
        ensures
            r == spec_worm_stage_tag(*self),
    {
        match self {
            Stage::Egg => 0,
            Stage::Larvae => 1,
            Stage::Isolated => 2,
            Stage::Pupa => 3,
            Stage::Adult => 4,
            Stage::Dead => 5,
        }
    }

    pub fn from_tag(t: u8) -> (r: Option<Stage>)
        ensures
            r == spec_worm_stage_from_tag(t),
            r is Some <==> t < 6,
            r matches Some(v) ==> spec_worm_stage_tag(v) == t,
            forall|v: Stage| spec_worm_stage_tag(v) == t ==> r == Some(v),
    {
        match t {
            0 => Some(Stage::Egg),
            1 => Some(Stage::Larvae),
            2 => Some(Stage::Isolated),
            3 => Some(Stage::Pupa),
            4 => Some(Stage::Adult),
            5 => Some(Stage::Dead),
            _ => None,
        }
    }
}
/// Add the worm record kinds to a registry, with both capabilities.
pub fn register_types(reg: &mut TypeRegistry)
    ensures
        final(reg)@ == old(reg)@.push((RecordKind::Gender, true, true)).push(
            (RecordKind::WormType, true, true),
        ).push((RecordKind::WormStage, true, true)),
{
    reg.register(RecordKind::Gender);
    reg.register(RecordKind::WormType);
    reg.register(RecordKind::WormStage);
}

} // verus!
