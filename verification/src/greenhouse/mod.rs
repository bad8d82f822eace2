//! Harvest crate records for the greenhouse, and the per-date list
//! identifier derived from a date.

pub mod gh_crate;

use crate::date::Date;
use crate::items::{Item, ItemId};
use crate::registry::{RecordKind, TypeRegistry};
use vstd::prelude::*;

verus! {

/// What a harvest crate holds; `Unset` doubles as a wildcard in
/// crate patterns.
#[derive(Debug, PartialEq, Eq, Structural, Clone, Copy, Hash)]
pub enum Crop {
    Unset,
    CherryTomato,
    TrussTomato,
    ParsleyCurly,
    ParsleyFlat,
}

/// The wire tag of each `Crop` variant.
pub open spec fn spec_crop_tag(v: Crop) -> u8 {
    match v {
        Crop::Unset => 0,
        Crop::CherryTomato => 1,
        Crop::TrussTomato => 2,
        Crop::ParsleyCurly => 3,
        Crop::ParsleyFlat => 4,
    }
}

/// The variant of `Crop` carrying a given wire tag.
pub open spec fn spec_crop_from_tag(t: u8) -> Option<Crop> {
    if t == 0 {
        Some(Crop::Unset)
    } else if t == 1 {
        Some(Crop::CherryTomato)
    } else if t == 2 {
        Some(Crop::TrussTomato)
    } else if t == 3 {
        Some(Crop::ParsleyCurly)
    } else if t == 4 {
        Some(Crop::ParsleyFlat)
    } else {
        None
    }
}

impl Crop {
    pub fn tag(&self) -> (r: u8)
        ensures
            r == spec_crop_tag(*self),
    {
        match self {
            Crop::Unset => 0,
            Crop::CherryTomato => 1,
            Crop::TrussTomato => 2,
            Crop::ParsleyCurly => 3,
            Crop::ParsleyFlat => 4,
        }
    }

    pub fn from_tag(t: u8) -> (r: Option<Crop>)
        ensures
            r == spec_crop_from_tag(t),
            r is Some <==> t < 5,
            r matches Some(v) ==> spec_crop_tag(v) == t,
            forall|v: Crop| spec_crop_tag(v) == t ==> r == Some(v),
    {
        match t {
            0 => Some(Crop::Unset),
            1 => Some(Crop::CherryTomato),
            2 => Some(Crop::TrussTomato),
            3 => Some(Crop::ParsleyCurly),
            4 => Some(Crop::ParsleyFlat),
            _ => None,
        }
    }
}
/// A harvest crate's size; `Unset` doubles as a wildcard.
#[derive(Debug, PartialEq, Eq, Structural, Clone, Copy, Hash)]
pub enum CrateSize {
    Unset,
    Small,
    Normal,
    Large,
}

/// The wire tag of each `CrateSize` variant.
pub open spec fn spec_crate_size_tag(v: CrateSize) -> u8 {
    match v {
        CrateSize::Unset => 0,
        CrateSize::Small => 1,
        CrateSize::Normal => 2,
        CrateSize::Large => 3,
    }
}

/// The variant of `CrateSize` carrying a given wire tag.
pub open spec fn spec_crate_size_from_tag(t: u8) -> Option<CrateSize> {
    if t == 0 {
        Some(CrateSize::Unset)
    } else if t == 1 {
        Some(CrateSize::Small)
    } else if t == 2 {
        Some(CrateSize::Normal)
    } else if t == 3 {
        Some(CrateSize::Large)
    } else {
        None
    }
}

impl CrateSize {
    pub fn tag(&self) -> (r: u8)
        ensures
            r == spec_crate_size_tag(*self),
    {
        match self {
            CrateSize::Unset => 0,
            CrateSize::Small => 1,
            CrateSize::Normal => 2,
            CrateSize::Large => 3,
        }
    }

    pub fn from_tag(t: u8) -> (r: Option<CrateSize>)
        ensures
            r == spec_crate_size_from_tag(t),
            r is Some <==> t < 4,
            r matches Some(v) ==> spec_crate_size_tag(v) == t,
            forall|v: CrateSize| spec_crate_size_tag(v) == t ==> r == Some(v),
    {
        match t {
            0 => Some(CrateSize::Unset),
            1 => Some(CrateSize::Small),
            2 => Some(CrateSize::Normal),
            3 => Some(CrateSize::Large),
            _ => None,
        }
    }
}
/// Produce quality grade; `Unset` doubles as a wildcard.
#[derive(Debug, PartialEq, Eq, Structural, Clone, Copy, Hash)]
pub enum Grade {
    Unset,
    First,
    Second,
    Third,
}

/// The wire tag of each `Grade` variant.
pub open spec fn spec_grade_tag(v: Grade) -> u8 {
    match v {
        Grade::Unset => 0,
        Grade::First => 1,
        Grade::Second => 2,
        Grade::Third => 3,
    }
}

/// The variant of `Grade` carrying a given wire tag.
pub open spec fn spec_grade_from_tag(t: u8) -> Option<Grade> {
    if t == 0 {
        Some(Grade::Unset)
    } else if t == 1 {
        Some(Grade::First)
    } else if t == 2 {
        Some(Grade::Second)
    } else if t == 3 {
        Some(Grade::Third)
    } else {
        None
    }
}

impl Grade {
    pub fn tag(&self) -> (r: u8)
        ensures
            r == spec_grade_tag(*self),
    {
        match self {
            Grade::Unset => 0,
            Grade::First => 1,
            Grade::Second => 2,
            Grade::Third => 3,
        }
    }

    pub fn from_tag(t: u8) -> (r: Option<Grade>)
        ensures
            r == spec_grade_from_tag(t),
            r is Some <==> t < 4,
            r matches Some(v) ==> spec_grade_tag(v) == t,
            forall|v: Grade| spec_grade_tag(v) == t ==> r == Some(v),
    {
        match t {
            0 => Some(Grade::Unset),
            1 => Some(Grade::First),
            2 => Some(Grade::Second),
            3 => Some(Grade::Third),
            _ => None,
        }
    }
}
/// One harvest crate: crop, size and grade; a field left `Unset`
/// makes the crate usable as a match pattern.
#[derive(Debug, PartialEq, Eq, Structural, Clone, Copy, Hash)]
pub struct Crate {
    pub id: ItemId,
    pub crop: Crop,
    pub size: CrateSize,
    pub grade: Grade,
}

/// Whether `c` matches the pattern `patern`: every pattern field must
/// equal the crate's, except that `Unset` matches anything.  The
/// identifiers play no part.
pub open spec fn spec_match_crate(c: Crate, patern: Crate) -> bool {
    (patern.crop == c.crop || patern.crop == Crop::Unset) && (patern.size == c.size || patern.size
        == CrateSize::Unset) && (patern.grade == c.grade || patern.grade == Grade::Unset)
}

impl Crate {
    /// Whether this crate matches the pattern.
    pub fn match_crate(&self, patern: &Crate) -> (r: bool)
        ensures
            r == spec_match_crate(*self, *patern),
    {
        if patern.crop != self.crop && patern.crop != Crop::Unset {
            return false;
        }
        if patern.size != self.size && patern.size != CrateSize::Unset {
            return false;
        }
        if patern.grade != self.grade && patern.grade != Grade::Unset {
            return false;
        }
        true
    }
}

impl Default for Crate {
    /// The all-`Unset` crate: the pattern that matches everything.
    fn default() -> (r: Crate)
        ensures
            r == (Crate {
                id: ItemId(0),
                crop: Crop::Unset,
                size: CrateSize::Unset,
                grade: Grade::Unset,
            }),
    {
        Crate { id: ItemId(0), crop: Crop::Unset, size: CrateSize::Unset, grade: Grade::Unset }
    }
}

impl Item for Crate {
    fn id(&self) -> ItemId {
        self.id
    }

    fn set_id(&mut self, id: ItemId) {
        self.id = id;
    }

    fn dependencies(&self) -> Option<Vec<ItemId>> {
        None
    }
}

/// What the server tells its clients about a changed record.
#[derive(Debug, Clone, Copy, PartialEq, Eq, Structural)]
pub enum ServerSideEvent {
    AddedItem(ItemId, Date),
    RemovedItem(ItemId, Date),
    UpadteItem(ItemId),
}

/// Add the greenhouse record kinds to a registry, with both
/// capabilities.
pub fn register_types(reg: &mut TypeRegistry)
    ensures
        final(reg)@ == old(reg)@.push((RecordKind::Crop, true, true)).push(
            (RecordKind::Crate, true, true),
        ).push((RecordKind::CrateSize, true, true)).push((RecordKind::Grade, true, true)),
{
    reg.register(RecordKind::Crop);
    reg.register(RecordKind::Crate);
    reg.register(RecordKind::CrateSize);
    reg.register(RecordKind::Grade);
}

/// The namespace that per-date greenhouse list identifiers are derived
/// in, as the big-endian value of the namespace identifier.
pub const GREENHOUSE_NAMESPACE: u128 = 0x70e96686_393e_4dba_9909_6f271bf6850d;

/// The identifier of the greenhouse's per-date crate list: a name-based
/// (version 3) identifier of the packed date word in the greenhouse
/// namespace.
pub fn date_to_id(date: Date) -> (r: ItemId)
    ensures
        r.spec_val() == crate::items::v3_of(
            GREENHOUSE_NAMESPACE,
            crate::codec::be_bytes(date.spec_bits() as u128, 4),
        ),
{
    let bytes = date.to_bytes();
    ItemId(crate::items::name_based_id(GREENHOUSE_NAMESPACE, &bytes))
}

} // verus!
