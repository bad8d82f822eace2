//! The reworked harvest crate record: a crop beside an open, typed
//! field set, one field per slot.

use crate::items::{Item, ItemId};
use vstd::prelude::*;

verus! {

/// The crop of the reworked crate record.
#[derive(Debug, PartialEq, Eq, Structural, Clone, Copy)]
pub enum Crop {
    Unset,
    Tomato,
    Parsley,
}

/// The wire tag of each `Crop` variant.
pub open spec fn spec_crop_tag(v: Crop) -> u8 {
    match v {
        Crop::Unset => 0,
        Crop::Tomato => 1,
        Crop::Parsley => 2,
    }
}

/// The variant of `Crop` carrying a given wire tag.
pub open spec fn spec_crop_from_tag(t: u8) -> Option<Crop> {
    if t == 0 {
        Some(Crop::Unset)
    } else if t == 1 {
        Some(Crop::Tomato)
    } else if t == 2 {
        Some(Crop::Parsley)
    } else {
        None
    }
}

impl Crop {
    pub fn tag(&self) -> (r: u8)
        ensures
            r == spec_crop_tag(*self),
    {
        match self {
            Crop::Unset => 0,
            Crop::Tomato => 1,
            Crop::Parsley => 2,
        }
    }

    pub fn from_tag(t: u8) -> (r: Option<Crop>)
        ensures
            r == spec_crop_from_tag(t),
            r is Some <==> t < 3,
            r matches Some(v) ==> spec_crop_tag(v) == t,
            forall|v: Crop| spec_crop_tag(v) == t ==> r == Some(v),
    {
        match t {
            0 => Some(Crop::Unset),
            1 => Some(Crop::Tomato),
            2 => Some(Crop::Parsley),
            _ => None,
        }
    }
}
/// Produce quality grade of the reworked crate record.
#[derive(Debug, PartialEq, Eq, Structural, Clone, Copy)]
pub enum Grade {
    First,
    Second,
    Third,
}

/// The wire tag of each `Grade` variant.
pub open spec fn spec_grade_tag(v: Grade) -> u8 {
    match v {
        Grade::First => 0,
        Grade::Second => 1,
        Grade::Third => 2,
    }
}

/// The variant of `Grade` carrying a given wire tag.
pub open spec fn spec_grade_from_tag(t: u8) -> Option<Grade> {
    if t == 0 {
        Some(Grade::First)
    } else if t == 1 {
        Some(Grade::Second)
    } else if t == 2 {
        Some(Grade::Third)
    } else {
        None
    }
}

impl Grade {
    pub fn tag(&self) -> (r: u8)
        ensures
            r == spec_grade_tag(*self),
    {
        match self {
            Grade::First => 0,
            Grade::Second => 1,
            Grade::Third => 2,
        }
    }

    pub fn from_tag(t: u8) -> (r: Option<Grade>)
        ensures
            r == spec_grade_from_tag(t),
            r is Some <==> t < 3,
            r matches Some(v) ==> spec_grade_tag(v) == t,
            forall|v: Grade| spec_grade_tag(v) == t ==> r == Some(v),
    {
        match t {
            0 => Some(Grade::First),
            1 => Some(Grade::Second),
            2 => Some(Grade::Third),
            _ => None,
        }
    }
}
/// The tomato variety field of a crate.
#[derive(Debug, PartialEq, Eq, Structural, Clone, Copy)]
pub enum TomatoType {
    Normal,
    Cherry,
}

/// The wire tag of each `TomatoType` variant.
pub open spec fn spec_tomato_type_tag(v: TomatoType) -> u8 {
    match v {
        TomatoType::Normal => 0,
        TomatoType::Cherry => 1,
    }
}

/// The variant of `TomatoType` carrying a given wire tag.
pub open spec fn spec_tomato_type_from_tag(t: u8) -> Option<TomatoType> {
    if t == 0 {
        Some(TomatoType::Normal)
    } else if t == 1 {
        Some(TomatoType::Cherry)
    } else {
        None
    }
}

impl TomatoType {
    pub fn tag(&self) -> (r: u8)
        ensures
            r == spec_tomato_type_tag(*self),
    {
        match self {
            TomatoType::Normal => 0,
            TomatoType::Cherry => 1,
        }
    }

    pub fn from_tag(t: u8) -> (r: Option<TomatoType>)
        ensures
            r == spec_tomato_type_from_tag(t),
            r is Some <==> t < 2,
            r matches Some(v) ==> spec_tomato_type_tag(v) == t,
            forall|v: TomatoType| spec_tomato_type_tag(v) == t ==> r == Some(v),
    {
        match t {
            0 => Some(TomatoType::Normal),
            1 => Some(TomatoType::Cherry),
            _ => None,
        }
    }
}
/// The parsley variety field of a crate.
#[derive(Debug, PartialEq, Eq, Structural, Clone, Copy)]
pub enum ParsleyType {
    Curly,
    Flat,
}

/// The wire tag of each `ParsleyType` variant.
pub open spec fn spec_parsley_type_tag(v: ParsleyType) -> u8 {
    match v {
        ParsleyType::Curly => 0,
        ParsleyType::Flat => 1,
    }
}

/// The variant of `ParsleyType` carrying a given wire tag.
pub open spec fn spec_parsley_type_from_tag(t: u8) -> Option<ParsleyType> {
    if t == 0 {
        Some(ParsleyType::Curly)
    } else if t == 1 {
        Some(ParsleyType::Flat)
    } else {
        None
    }
}

impl ParsleyType {
    pub fn tag(&self) -> (r: u8)
        ensures
            r == spec_parsley_type_tag(*self),
    {
        match self {
            ParsleyType::Curly => 0,
            ParsleyType::Flat => 1,
        }
    }

    pub fn from_tag(t: u8) -> (r: Option<ParsleyType>)
        ensures
            r == spec_parsley_type_from_tag(t),
            r is Some <==> t < 2,
            r matches Some(v) ==> spec_parsley_type_tag(v) == t,
            forall|v: ParsleyType| spec_parsley_type_tag(v) == t ==> r == Some(v),
    {
        match t {
            0 => Some(ParsleyType::Curly),
            1 => Some(ParsleyType::Flat),
            _ => None,
        }
    }
}
/// The size field of a crate.
#[derive(Debug, PartialEq, Eq, Structural, Clone, Copy)]
pub enum Size {
    Small,
    Normal,
    Large,
}

/// The wire tag of each `Size` variant.
pub open spec fn spec_size_tag(v: Size) -> u8 {
    match v {
        Size::Small => 0,
        Size::Normal => 1,
        Size::Large => 2,
    }
}

/// The variant of `Size` carrying a given wire tag.
pub open spec fn spec_size_from_tag(t: u8) -> Option<Size> {
    if t == 0 {
        Some(Size::Small)
    } else if t == 1 {
        Some(Size::Normal)
    } else if t == 2 {
        Some(Size::Large)
    } else {
        None
    }
}

impl Size {
    pub fn tag(&self) -> (r: u8)
        ensures
            r == spec_size_tag(*self),
    {
        match self {
            Size::Small => 0,
            Size::Normal => 1,
            Size::Large => 2,
        }
    }

    pub fn from_tag(t: u8) -> (r: Option<Size>)
        ensures
            r == spec_size_from_tag(t),
            r is Some <==> t < 3,
            r matches Some(v) ==> spec_size_tag(v) == t,
            forall|v: Size| spec_size_tag(v) == t ==> r == Some(v),
    {
        match t {
            0 => Some(Size::Small),
            1 => Some(Size::Normal),
            2 => Some(Size::Large),
            _ => None,
        }
    }
}
/// How a crate's produce is packed.
#[derive(Debug, PartialEq, Eq, Structural, Clone, Copy)]
pub enum Packing {
    SmallPunnet,
    LargePunnet,
    Truss,
}

/// The wire tag of each `Packing` variant.
pub open spec fn spec_packing_tag(v: Packing) -> u8 {
    match v {
        Packing::SmallPunnet => 0,
        Packing::LargePunnet => 1,
        Packing::Truss => 2,
    }
}

/// The variant of `Packing` carrying a given wire tag.
pub open spec fn spec_packing_from_tag(t: u8) -> Option<Packing> {
    if t == 0 {
        Some(Packing::SmallPunnet)
    } else if t == 1 {
        Some(Packing::LargePunnet)
    } else if t == 2 {
        Some(Packing::Truss)
    } else {
        None
    }
}

impl Packing {
    pub fn tag(&self) -> (r: u8)
        ensures
            r == spec_packing_tag(*self),
    {
        match self {
            Packing::SmallPunnet => 0,
            Packing::LargePunnet => 1,
            Packing::Truss => 2,
        }
    }

    pub fn from_tag(t: u8) -> (r: Option<Packing>)
        ensures
            r == spec_packing_from_tag(t),
            r is Some <==> t < 3,
            r matches Some(v) ==> spec_packing_tag(v) == t,
            forall|v: Packing| spec_packing_tag(v) == t ==> r == Some(v),
    {
        match t {
            0 => Some(Packing::SmallPunnet),
            1 => Some(Packing::LargePunnet),
            2 => Some(Packing::Truss),
            _ => None,
        }
    }
}
/// Which slot a field occupies; the two variety fields share the
/// `Type` slot, as a crate describes one crop.
#[derive(Debug, PartialEq, Eq, Structural, Clone, Copy)]
pub enum FieldKey {
    Crop,
    Type,
    Size,
    Grade,
    Packing,
}

/// One typed field of a crate.
#[derive(Debug, PartialEq, Eq, Structural, Clone, Copy)]
pub enum CropField {
    Crop(Crop),
    Tomato(TomatoType),
    Parsley(ParsleyType),
    Size(Size),
    Grade(Grade),
    Packing(Packing),
}

/// The slot a field occupies.
pub open spec fn spec_field_key(f: CropField) -> FieldKey {
    match f {
        CropField::Crop(_) => FieldKey::Crop,
        CropField::Tomato(_) => FieldKey::Type,
        CropField::Parsley(_) => FieldKey::Type,
        CropField::Size(_) => FieldKey::Size,
        CropField::Grade(_) => FieldKey::Grade,
        CropField::Packing(_) => FieldKey::Packing,
    }
}

/// Whether some field in `s` occupies slot `k`.
pub open spec fn spec_has_key(s: Seq<CropField>, k: FieldKey) -> bool {
    exists|i: int| 0 <= i < s.len() && spec_field_key(s[i]) == k
}

/// The two wire tags of a field: which slot family it is, and which
/// variant of that family.
pub open spec fn spec_field_tags(f: CropField) -> (u8, u8) {
    match f {
        CropField::Crop(v) => (0u8, spec_crop_tag(v)),
        CropField::Tomato(v) => (1u8, spec_tomato_type_tag(v)),
        CropField::Parsley(v) => (2u8, spec_parsley_type_tag(v)),
        CropField::Size(v) => (3u8, spec_size_tag(v)),
        CropField::Grade(v) => (4u8, spec_grade_tag(v)),
        CropField::Packing(v) => (5u8, spec_packing_tag(v)),
    }
}

/// The field carrying a given pair of wire tags.
pub open spec fn spec_field_from_tags(k: u8, t: u8) -> Option<CropField> {
    if k == 0 {
        match spec_crop_from_tag(t) {
            Some(v) => Some(CropField::Crop(v)),
            None => None,
        }
    } else if k == 1 {
        match spec_tomato_type_from_tag(t) {
            Some(v) => Some(CropField::Tomato(v)),
            None => None,
        }
    } else if k == 2 {
        match spec_parsley_type_from_tag(t) {
            Some(v) => Some(CropField::Parsley(v)),
            None => None,
        }
    } else if k == 3 {
        match spec_size_from_tag(t) {
            Some(v) => Some(CropField::Size(v)),
            None => None,
        }
    } else if k == 4 {
        match spec_grade_from_tag(t) {
            Some(v) => Some(CropField::Grade(v)),
            None => None,
        }
    } else if k == 5 {
        match spec_packing_from_tag(t) {
            Some(v) => Some(CropField::Packing(v)),
            None => None,
        }
    } else {
        None
    }
}

/// The wire tags and the field determine each other.
pub proof fn lemma_field_tags_exact(f: CropField, k: u8, t: u8)
    ensures
        spec_field_from_tags(spec_field_tags(f).0, spec_field_tags(f).1) == Some(f),
        spec_field_from_tags(k, t) matches Some(g) ==> spec_field_tags(g) == (k, t),
{
}

impl CropField {
    pub fn wire_tags(&self) -> (r: (u8, u8))
        ensures
            r == spec_field_tags(*self),
    {
        match self {
            CropField::Crop(v) => (0, v.tag()),
            CropField::Tomato(v) => (1, v.tag()),
            CropField::Parsley(v) => (2, v.tag()),
            CropField::Size(v) => (3, v.tag()),
            CropField::Grade(v) => (4, v.tag()),
            CropField::Packing(v) => (5, v.tag()),
        }
    }

    pub fn from_tags(k: u8, t: u8) -> (r: Option<CropField>)
        ensures
            r == spec_field_from_tags(k, t),
    {
        if k == 0 {
            match Crop::from_tag(t) {
                Some(v) => Some(CropField::Crop(v)),
                None => None,
            }
        } else if k == 1 {
            match TomatoType::from_tag(t) {
                Some(v) => Some(CropField::Tomato(v)),
                None => None,
            }
        } else if k == 2 {
            match ParsleyType::from_tag(t) {
                Some(v) => Some(CropField::Parsley(v)),
                None => None,
            }
        } else if k == 3 {
            match Size::from_tag(t) {
                Some(v) => Some(CropField::Size(v)),
                None => None,
            }
        } else if k == 4 {
            match Grade::from_tag(t) {
                Some(v) => Some(CropField::Grade(v)),
                None => None,
            }
        } else if k == 5 {
            match Packing::from_tag(t) {
                Some(v) => Some(CropField::Packing(v)),
                None => None,
            }
        } else {
            None
        }
    }

    pub fn field_key(&self) -> (r: FieldKey)
        ensures
            r == spec_field_key(*self),
    {
        match self {
            CropField::Crop(_) => FieldKey::Crop,
            CropField::Tomato(_) => FieldKey::Type,
            CropField::Parsley(_) => FieldKey::Type,
            CropField::Size(_) => FieldKey::Size,
            CropField::Grade(_) => FieldKey::Grade,
            CropField::Packing(_) => FieldKey::Packing,
        }
    }
}

/// An ordered collection of crate fields.
#[derive(Debug, PartialEq, Clone)]
pub struct Fields(pub(crate) Vec<CropField>);

impl View for Fields {
    type V = Seq<CropField>;

    closed spec fn view(&self) -> Seq<CropField> {
        self.0@
    }
}

impl Fields {
    pub fn contains_key(&self, key: FieldKey) -> (r: bool)
        ensures
            r == spec_has_key(self@, key),
    {
        let n: usize = self.0.len();
        let mut i: usize = 0;
        while i < n
            invariant
                i <= n,
                n == self@.len(),
                forall|j: int| 0 <= j < i ==> spec_field_key(#[trigger] self@[j]) != key,
        decreases n - i,
        {
            if self.0[i].field_key() == key {
                return true;
            }
            i = i + 1;
        }
        false
    }

    /// Append a field without looking at the slots already taken.
    pub fn push(&mut self, item: CropField)
        ensures
            final(self)@ == old(self)@.push(item),
    {
        self.0.push(item);
    }

    /// Replace the first field in `item`'s slot, or append `item` when
    /// its slot is still free.
    pub fn set(&mut self, item: CropField)
        ensures
            !spec_has_key(old(self)@, spec_field_key(item)) ==> final(self)@ == old(self)@.push(
                item,
            ),
            spec_has_key(old(self)@, spec_field_key(item)) ==> exists|i: int|
                0 <= i < old(self)@.len() && spec_field_key(#[trigger] old(self)@[i])
                    == spec_field_key(item) && (forall|j: int|
                    0 <= j < i ==> spec_field_key(#[trigger] old(self)@[j]) != spec_field_key(
                        item,
                    )) && final(self)@ == old(self)@.update(i, item),
    {
        let key = item.field_key();
        let n: usize = self.0.len();
        let mut i: usize = 0;
        while i < n
            invariant
                i <= n,
                n == self@.len(),
                self@ == old(self)@,
                key == spec_field_key(item),
                forall|j: int| 0 <= j < i ==> spec_field_key(#[trigger] self@[j]) != key,
        decreases n - i,
        {
            if self.0[i].field_key() == key {
                self.0[i] = item;
                return;
            }
            i = i + 1;
        }
        self.0.push(item);
    }

    /// The first field in slot `key`, if any.
    pub fn get(&self, key: FieldKey) -> (r: Option<&CropField>)
        ensures
            r is Some <==> spec_has_key(self@, key),
            r matches Some(f) ==> exists|i: int|
                0 <= i < self@.len() && #[trigger] self@[i] == *f && spec_field_key(*f) == key && (
                forall|j: int| 0 <= j < i ==> spec_field_key(#[trigger] self@[j]) != key),
    {
        let n: usize = self.0.len();
        let mut i: usize = 0;
        while i < n
            invariant
                i <= n,
                n == self@.len(),
                forall|j: int| 0 <= j < i ==> spec_field_key(#[trigger] self@[j]) != key,
        decreases n - i,
        {
            if self.0[i].field_key() == key {
                return Some(&self.0[i]);
            }
            i = i + 1;
        }
        None
    }

    pub fn clear(&mut self)
        ensures
            final(self)@ == Seq::<CropField>::empty(),
    {
        self.0.clear();
        proof {
            assert(self@ =~= Seq::<CropField>::empty());
        }
    }

    /// The fields in order, for iteration and encoding.
    pub fn as_vec(&self) -> (r: &Vec<CropField>)
        ensures
            r@ == self@,
    {
        &self.0
    }

    /// Wrap an already-built field list.
    pub fn from_vec(v: Vec<CropField>) -> (r: Fields)
        ensures
            r@ == v@,
    {
        Fields(v)
    }
}

impl Default for Fields {
    /// No fields at all.
    fn default() -> (r: Fields)
        ensures
            r@ == Seq::<CropField>::empty(),
    {
        Fields(Vec::new())
    }
}

/// The field set a crop starts out with.
pub open spec fn spec_default_fields(c: Crop) -> Seq<CropField> {
    match c {
        Crop::Unset => Seq::empty(),
        Crop::Tomato => seq![
            CropField::Tomato(TomatoType::Normal),
            CropField::Size(Size::Small),
            CropField::Grade(Grade::First),
            CropField::Packing(Packing::Truss),
        ],
        Crop::Parsley => seq![CropField::Parsley(ParsleyType::Curly)],
    }
}

impl Crop {
    /// The field set this crop starts out with.
    pub fn default_filds(&self) -> (r: Fields)
        ensures
            r@ == spec_default_fields(*self),
    {
        let mut map = Fields::default();
        match self {
            Crop::Unset => {},
            Crop::Tomato => {
                map.push(CropField::Tomato(TomatoType::Normal));
                map.push(CropField::Size(Size::Small));
                map.push(CropField::Grade(Grade::First));
                map.push(CropField::Packing(Packing::Truss));
            },
            Crop::Parsley => {
                map.push(CropField::Parsley(ParsleyType::Curly));
            },
        }
        proof {
            assert(map@ =~= spec_default_fields(*self));
        }
        map
    }
}

/// The reworked crate record.
#[derive(Debug, PartialEq, Clone)]
pub struct Crate {
    pub id: ItemId,
    pub crop: Crop,
    pub fields: Fields,
}

impl Default for Crate {
    /// A crate of no crop, with no fields.
    fn default() -> (r: Crate)
        ensures
            r.id == ItemId(0),
            r.crop == Crop::Unset,
            r.fields@ == Seq::<CropField>::empty(),
    {
        Crate { id: ItemId(0), crop: Crop::Unset, fields: Fields::default() }
    }
}

impl Item for Crate {
    fn id(&self) -> ItemId {
        self.id
    }

    fn set_id(&mut self, id: ItemId) {
        self.id = id;
    }

    fn dependencies(&self) -> Option<Vec<ItemId>> {
        None
    }
}

} // verus!
