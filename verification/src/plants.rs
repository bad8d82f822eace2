//! Plant records: species, lifecycle stage and location.

use crate::items::{Item, ItemId};
use vstd::prelude::*;
use vstd::string::*;

verus! {

/// The species a plant record can carry.
#[derive(Debug, PartialEq, Eq, Structural, Clone, Copy)]
pub enum PlantTypes {
    Sunflower,
    Silverbeet,
    Spinach,
    Sage,
    Lettuce,
    Basil,
    LemonBalm,
    Thyme,
    Snapdragon,
    Daisy,
    Nesturtium,
}

/// The wire tag of each `PlantTypes` variant.
pub open spec fn spec_plant_types_tag(v: PlantTypes) -> u8 {
    match v {
        PlantTypes::Sunflower => 0,
        PlantTypes::Silverbeet => 1,
        PlantTypes::Spinach => 2,
        PlantTypes::Sage => 3,
        PlantTypes::Lettuce => 4,
        PlantTypes::Basil => 5,
        PlantTypes::LemonBalm => 6,
        PlantTypes::Thyme => 7,
        PlantTypes::Snapdragon => 8,
        PlantTypes::Daisy => 9,
        PlantTypes::Nesturtium => 10,
    }
}

/// The variant of `PlantTypes` carrying a given wire tag.
pub open spec fn spec_plant_types_from_tag(t: u8) -> Option<PlantTypes> {
    if t == 0 {
        Some(PlantTypes::Sunflower)
    } else if t == 1 {
        Some(PlantTypes::Silverbeet)
    } else if t == 2 {
        Some(PlantTypes::Spinach)
    } else if t == 3 {
        Some(PlantTypes::Sage)
    } else if t == 4 {
        Some(PlantTypes::Lettuce)
    } else if t == 5 {
        Some(PlantTypes::Basil)
    } else if t == 6 {
        Some(PlantTypes::LemonBalm)
    } else if t == 7 {
        Some(PlantTypes::Thyme)
    } else if t == 8 {
        Some(PlantTypes::Snapdragon)
    } else if t == 9 {
        Some(PlantTypes::Daisy)
    } else if t == 10 {
        Some(PlantTypes::Nesturtium)
    } else {
        None
    }
}

impl PlantTypes {
    pub fn tag(&self) -> (r: u8)
        ensures
            r == spec_plant_types_tag(*self),
    {
        match self {
            PlantTypes::Sunflower => 0,
            PlantTypes::Silverbeet => 1,
            PlantTypes::Spinach => 2,
            PlantTypes::Sage => 3,
            PlantTypes::Lettuce => 4,
            PlantTypes::Basil => 5,
            PlantTypes::LemonBalm => 6,
            PlantTypes::Thyme => 7,
            PlantTypes::Snapdragon => 8,
            PlantTypes::Daisy => 9,
            PlantTypes::Nesturtium => 10,
        }
    }

    pub fn from_tag(t: u8) -> (r: Option<PlantTypes>)
        ensures
            r == spec_plant_types_from_tag(t),
            r is Some <==> t < 11,
            r matches Some(v) ==> spec_plant_types_tag(v) == t,
            forall|v: PlantTypes| spec_plant_types_tag(v) == t ==> r == Some(v),
    {
        match t {
            0 => Some(PlantTypes::Sunflower),
            1 => Some(PlantTypes::Silverbeet),
            2 => Some(PlantTypes::Spinach),
            3 => Some(PlantTypes::Sage),
            4 => Some(PlantTypes::Lettuce),
            5 => Some(PlantTypes::Basil),
            6 => Some(PlantTypes::LemonBalm),
            7 => Some(PlantTypes::Thyme),
            8 => Some(PlantTypes::Snapdragon),
            9 => Some(PlantTypes::Daisy),
            10 => Some(PlantTypes::Nesturtium),
            _ => None,
        }
    }
}
/// A plant's lifecycle stage.
#[derive(Debug, PartialEq, Eq, Structural, Clone, Copy)]
pub enum Stage {
    Planted,
    Sprout,
    Flowering,
    Frugting,
    Dead,
}

/// The wire tag of each `Stage` variant.
pub open spec fn spec_plant_stage_tag(v: Stage) -> u8 {
    match v {
        Stage::Planted => 0,
        Stage::Sprout => 1,
        Stage::Flowering => 2,
        Stage::Frugting => 3,
        Stage::Dead => 4,
    }
}

/// The variant of `Stage` carrying a given wire tag.
pub open spec fn spec_plant_stage_from_tag(t: u8) -> Option<Stage> {
    if t == 0 {
        Some(Stage::Planted)
    } else if t == 1 {
        Some(Stage::Sprout)
    } else if t == 2 {
        Some(Stage::Flowering)
    } else if t == 3 {
        Some(Stage::Frugting)
    } else if t == 4 {
        Some(Stage::Dead)
    } else {
        None
    }
}

impl Stage {
    pub fn tag(&self) -> (r: u8)
        ensures
            r == spec_plant_stage_tag(*self),
    {
        match self {
            Stage::Planted => 0,
            Stage::Sprout => 1,
            Stage::Flowering => 2,
            Stage::Frugting => 3,
            Stage::Dead => 4,
        }
    }

    pub fn from_tag(t: u8) -> (r: Option<Stage>)
        ensures
            r == spec_plant_stage_from_tag(t),
            r is Some <==> t < 5,
            r matches Some(v) ==> spec_plant_stage_tag(v) == t,
            forall|v: Stage| spec_plant_stage_tag(v) == t ==> r == Some(v),
    {
        match t {
            0 => Some(Stage::Planted),
            1 => Some(Stage::Sprout),
            2 => Some(Stage::Flowering),
            3 => Some(Stage::Frugting),
            4 => Some(Stage::Dead),
            _ => None,
        }
    }
}
/// One plant under cultivation.
#[derive(Debug, PartialEq, Eq, Structural, Clone, Copy)]
pub struct Plant {
    pub id: ItemId,
    pub plant_type: PlantTypes,
    pub stage: Stage,
    pub location: ItemId,
}

impl Plant {
    /// A fixed specimen for each small `id`, used by the storage tests.
    pub fn test(id: u8) -> (r: Plant)
        ensures
            id == 0 ==> r == (Plant {
                id: ItemId(1000),
                stage: Stage::Planted,
                location: ItemId(1001),
                plant_type: PlantTypes::Lettuce,
            }),
            id != 0 ==> r == (Plant {
                id: ItemId(1010),
                stage: Stage::Planted,
                location: ItemId(1011),
                plant_type: PlantTypes::Lettuce,
            }),
    {
        match id {
            0 => Plant {
                id: ItemId::from_u128(1000),
                stage: Stage::Planted,
                location: ItemId::from_u128(1001),
                plant_type: PlantTypes::Lettuce,
            },
            _ => Plant {
                id: ItemId::from_u128(1010),
                stage: Stage::Planted,
                location: ItemId::from_u128(1011),
                plant_type: PlantTypes::Lettuce,
            },
        }
    }
}

impl Item for Plant {
    fn id(&self) -> ItemId {
        self.id
    }

    fn set_id(&mut self, id: ItemId) {
        self.id = id;
    }

    fn dependencies(&self) -> Option<Vec<ItemId>> {
        Some(vec![self.location])
    }
}

/// The label of one tray cell: its column and row, and the tray's
/// name.
pub open spec fn spec_cell_text(x: nat, y: nat, name: Seq<char>) -> Seq<char> {
    "Cell "@ + crate::codec::dec_digits(x) + ":"@ + crate::codec::dec_digits(y) + " of "@ + name
}

/// A tray of seedling slots, addressed row by row.
#[derive(Debug)]
pub struct SeedTray {
    pub id: ItemId,
    pub name: String,
    pub slots: Vec<ItemId>,
    pub width: usize,
    pub hight: usize,
}

impl SeedTray {
    /// An empty tray of the given dimensions, not yet assigned an
    /// identifier.
    pub fn new<const X: usize, const Y: usize>(name: String) -> (r: SeedTray)
        ensures
            r.id.spec_val() == 0,
            r.name == name,
            r.slots@.len() == 0,
            r.width == X,
            r.hight == Y,
    {
        SeedTray { id: ItemId(0), name, slots: Vec::new(), width: X, hight: Y }
    }

    /// The label of the first cell holding `find`, scanning row by
    /// row, or nothing when no cell holds it.
    pub fn location_of(&self, find: ItemId) -> (r: Option<String>)
        requires
            self.width * self.hight <= self.slots@.len(),
        ensures
            match r {
                Some(t) => exists|i: int|
                    0 <= i < self.width * self.hight && #[trigger] self.slots@[i] == find && (
                    forall|j: int| 0 <= j < i ==> self.slots@[j] != find) && self.width > 0 && t@
                        == spec_cell_text(
                        (i % self.width as int) as nat,
                        (i / self.width as int) as nat,
                        self.name@,
                    ),
                None => forall|i: int|
                    0 <= i < self.width * self.hight ==> #[trigger] self.slots@[i] != find,
            },
    {
        proof {
            reveal_strlit("Cell ");
            reveal_strlit(":");
            reveal_strlit(" of ");
        }
        let slot_count: usize = self.slots.len();
        let mut y: usize = 0;
        while y < self.hight
            invariant
                y <= self.hight,
                self.width * self.hight <= self.slots@.len(),
                self.slots@.len() == slot_count,
                forall|j: int| 0 <= j < y * self.width ==> #[trigger] self.slots@[j] != find,
            decreases self.hight - y,
        {
            let mut x: usize = 0;
            proof {
                assert((y + 1) * self.width <= self.hight * self.width) by (nonlinear_arith)
                    requires
                        y < self.hight,
                        self.width >= 0,
                ;
                assert(self.hight * self.width == self.width * self.hight) by (nonlinear_arith);
                assert(y * self.width + self.width == (y + 1) * self.width) by (nonlinear_arith);
            }
            while x < self.width
                invariant
                    x <= self.width,
                    y < self.hight,
                    self.width * self.hight <= self.slots@.len(),
                    self.slots@.len() == slot_count,
                    y * self.width + x <= self.width * self.hight,
                    (y + 1) * self.width <= self.width * self.hight,
                    y * self.width + self.width == (y + 1) * self.width,
                    forall|j: int| 0 <= j < y * self.width + x ==> #[trigger] self.slots@[j] != find,
                decreases self.width - x,
            {
                let idx: usize = y * self.width + x;
                if self.slots[idx] == find {
                    let mut out = String::new();
                    out.append("Cell ");
                    crate::codec::push_dec(&mut out, x as u64);
                    out.append(":");
                    crate::codec::push_dec(&mut out, y as u64);
                    out.append(" of ");
                    out.append(self.name.as_str());
                    proof {
                        assert((idx as int) % (self.width as int) == x as int && (idx as int) / (
                        self.width as int) == y as int)
                            by (nonlinear_arith)
                            requires
                                idx == y * self.width + x,
                                0 <= x < self.width,
                                y >= 0,
                        ;
                        assert(out@ =~= spec_cell_text(x as nat, y as nat, self.name@));
                    }
                    return Some(out);
                }
                x = x + 1;
            }
            y = y + 1;
        }
        proof {
            assert(self.hight * self.width == self.width * self.hight) by (nonlinear_arith);
        }
        None
    }
}

} // verus!

