//! The type registry and the record codec.
//!
//! A `Record` is one value of any storable type, as a closed sum; a
//! `RecordKind` names its variant.  The registry maps each kind's
//! stable type name to its encode and decode capabilities, and the
//! codec turns records into self-describing hexadecimal payloads and
//! back, exactly.

use crate::codec::{hex_be, hex_parse, is_hex_digit, parse_hex, pow16, push_hex};
use crate::date::Date;
use crate::greenhouse::gh_crate;
use crate::items::ItemId;
use crate::DbError;
use vstd::prelude::*;

verus! {

broadcast use vstd::seq::group_seq_axioms;

/// The storable record types, one variant per registered name.
#[derive(Debug, PartialEq, Eq, Structural, Clone, Copy)]
pub enum RecordKind {
    Plant,
    PlantTypes,
    EventsPlant,
    EventsPlantTypes,
    SilkWorm,
    Gender,
    WormType,
    WormStage,
    Crop,
    Crate,
    CrateSize,
    Grade,
    GhCrate,
    GhCrop,
    GhGrade,
    ItemId,
    ItemIdList,
}

/// The stable type name under which each kind is registered and
/// stored.
pub open spec fn spec_kind_name(k: RecordKind) -> Seq<char> {
    match k {
        RecordKind::Plant => "server_lib::plants::Plant"@,
        RecordKind::PlantTypes => "server_lib::plants::PlantTypes"@,
        RecordKind::EventsPlant => "server_lib::events::Plant"@,
        RecordKind::EventsPlantTypes => "server_lib::events::PlantTypes"@,
        RecordKind::SilkWorm => "server_lib::events::silkworms::SilkWormEvents"@,
        RecordKind::Gender => "server_lib::worms::Gender"@,
        RecordKind::WormType => "server_lib::worms::WormType"@,
        RecordKind::WormStage => "server_lib::worms::Stage"@,
        RecordKind::Crop => "server_lib::greenhouse::Crop"@,
        RecordKind::Crate => "server_lib::greenhouse::Crate"@,
        RecordKind::CrateSize => "server_lib::greenhouse::CrateSize"@,
        RecordKind::Grade => "server_lib::greenhouse::Grade"@,
        RecordKind::GhCrate => "server_lib::greenhouse::gh_crate::Crate"@,
        RecordKind::GhCrop => "server_lib::greenhouse::gh_crate::Crop"@,
        RecordKind::GhGrade => "server_lib::greenhouse::gh_crate::Grade"@,
        RecordKind::ItemId => "server_lib::items::ItemId"@,
        RecordKind::ItemIdList => "alloc::vec::Vec<server_lib::items::ItemId>"@,
    }
}

/// The stable type name, as text.
pub fn kind_name(k: RecordKind) -> (r: &'static str)
    ensures
        r@ == spec_kind_name(k),
{
    match k {
        RecordKind::Plant => "server_lib::plants::Plant",
        RecordKind::PlantTypes => "server_lib::plants::PlantTypes",
        RecordKind::EventsPlant => "server_lib::events::Plant",
        RecordKind::EventsPlantTypes => "server_lib::events::PlantTypes",
        RecordKind::SilkWorm => "server_lib::events::silkworms::SilkWormEvents",
        RecordKind::Gender => "server_lib::worms::Gender",
        RecordKind::WormType => "server_lib::worms::WormType",
        RecordKind::WormStage => "server_lib::worms::Stage",
        RecordKind::Crop => "server_lib::greenhouse::Crop",
        RecordKind::Crate => "server_lib::greenhouse::Crate",
        RecordKind::CrateSize => "server_lib::greenhouse::CrateSize",
        RecordKind::Grade => "server_lib::greenhouse::Grade",
        RecordKind::GhCrate => "server_lib::greenhouse::gh_crate::Crate",
        RecordKind::GhCrop => "server_lib::greenhouse::gh_crate::Crop",
        RecordKind::GhGrade => "server_lib::greenhouse::gh_crate::Grade",
        RecordKind::ItemId => "server_lib::items::ItemId",
        RecordKind::ItemIdList => "alloc::vec::Vec<server_lib::items::ItemId>",
    }
}

proof fn reveal_kind_names()
    ensures
        spec_kind_name(RecordKind::Plant).len() == 25,
        spec_kind_name(RecordKind::PlantTypes).len() == 30,
        spec_kind_name(RecordKind::EventsPlant).len() == 25,
        spec_kind_name(RecordKind::EventsPlantTypes).len() == 30,
        spec_kind_name(RecordKind::SilkWorm).len() == 45,
        spec_kind_name(RecordKind::Gender).len() == 25,
        spec_kind_name(RecordKind::WormType).len() == 27,
        spec_kind_name(RecordKind::WormStage).len() == 24,
        spec_kind_name(RecordKind::Crop).len() == 28,
        spec_kind_name(RecordKind::Crate).len() == 29,
        spec_kind_name(RecordKind::CrateSize).len() == 33,
        spec_kind_name(RecordKind::Grade).len() == 29,
        spec_kind_name(RecordKind::GhCrate).len() == 39,
        spec_kind_name(RecordKind::GhCrop).len() == 38,
        spec_kind_name(RecordKind::GhGrade).len() == 39,
        spec_kind_name(RecordKind::ItemId).len() == 25,
        spec_kind_name(RecordKind::ItemIdList).len() == 42,
        spec_kind_name(RecordKind::Plant)[12] == 'p',
        spec_kind_name(RecordKind::EventsPlant)[12] == 'e',
        spec_kind_name(RecordKind::Gender)[12] == 'w',
        spec_kind_name(RecordKind::ItemId)[12] == 'i',
        spec_kind_name(RecordKind::PlantTypes)[12] == 'p',
        spec_kind_name(RecordKind::EventsPlantTypes)[12] == 'e',
        spec_kind_name(RecordKind::Crate)[24] == 'C',
        spec_kind_name(RecordKind::Grade)[24] == 'G',
        spec_kind_name(RecordKind::GhCrate)[34] == 'C',
        spec_kind_name(RecordKind::GhGrade)[34] == 'G',
{
    reveal_strlit("server_lib::plants::Plant");
    reveal_strlit("server_lib::plants::PlantTypes");
    reveal_strlit("server_lib::events::Plant");
    reveal_strlit("server_lib::events::PlantTypes");
    reveal_strlit("server_lib::events::silkworms::SilkWormEvents");
    reveal_strlit("server_lib::worms::Gender");
    reveal_strlit("server_lib::worms::WormType");
    reveal_strlit("server_lib::worms::Stage");
    reveal_strlit("server_lib::greenhouse::Crop");
    reveal_strlit("server_lib::greenhouse::Crate");
    reveal_strlit("server_lib::greenhouse::CrateSize");
    reveal_strlit("server_lib::greenhouse::Grade");
    reveal_strlit("server_lib::greenhouse::gh_crate::Crate");
    reveal_strlit("server_lib::greenhouse::gh_crate::Crop");
    reveal_strlit("server_lib::greenhouse::gh_crate::Grade");
    reveal_strlit("server_lib::items::ItemId");
    reveal_strlit("alloc::vec::Vec<server_lib::items::ItemId>");
}

/// Distinct kinds carry distinct names: the stored name determines the
/// stored kind.
pub proof fn lemma_kind_names_injective(k1: RecordKind, k2: RecordKind)
    requires
        spec_kind_name(k1) == spec_kind_name(k2),
    ensures
        k1 == k2,
{
    reveal_kind_names();
}

/// One value of any storable type.
#[derive(Debug, PartialEq, Clone)]
pub enum Record {
    Plant(crate::plants::Plant),
    PlantTypes(crate::plants::PlantTypes),
    EventsPlant(crate::events::Plant),
    EventsPlantTypes(crate::events::PlantTypes),
    SilkWorm(crate::events::silkworms::SilkWormEvents),
    Gender(crate::worms::Gender),
    WormType(crate::worms::WormType),
    WormStage(crate::worms::Stage),
    Crop(crate::greenhouse::Crop),
    Crate(crate::greenhouse::Crate),
    CrateSize(crate::greenhouse::CrateSize),
    Grade(crate::greenhouse::Grade),
    GhCrate(crate::greenhouse::gh_crate::Crate),
    GhCrop(crate::greenhouse::gh_crate::Crop),
    GhGrade(crate::greenhouse::gh_crate::Grade),
    ItemId(ItemId),
    ItemIdList(Vec<ItemId>),
}

/// The kind of a record.
pub open spec fn record_kind(r: Record) -> RecordKind {
    match r {
        Record::Plant(_) => RecordKind::Plant,
        Record::PlantTypes(_) => RecordKind::PlantTypes,
        Record::EventsPlant(_) => RecordKind::EventsPlant,
        Record::EventsPlantTypes(_) => RecordKind::EventsPlantTypes,
        Record::SilkWorm(_) => RecordKind::SilkWorm,
        Record::Gender(_) => RecordKind::Gender,
        Record::WormType(_) => RecordKind::WormType,
        Record::WormStage(_) => RecordKind::WormStage,
        Record::Crop(_) => RecordKind::Crop,
        Record::Crate(_) => RecordKind::Crate,
        Record::CrateSize(_) => RecordKind::CrateSize,
        Record::Grade(_) => RecordKind::Grade,
        Record::GhCrate(_) => RecordKind::GhCrate,
        Record::GhCrop(_) => RecordKind::GhCrop,
        Record::GhGrade(_) => RecordKind::GhGrade,
        Record::ItemId(_) => RecordKind::ItemId,
        Record::ItemIdList(_) => RecordKind::ItemIdList,
    }
}

impl Record {
    pub fn kind(&self) -> (r: RecordKind)
        ensures
            r == record_kind(*self),
    {
        match self {
            Record::Plant(_) => RecordKind::Plant,
            Record::PlantTypes(_) => RecordKind::PlantTypes,
            Record::EventsPlant(_) => RecordKind::EventsPlant,
            Record::EventsPlantTypes(_) => RecordKind::EventsPlantTypes,
            Record::SilkWorm(_) => RecordKind::SilkWorm,
            Record::Gender(_) => RecordKind::Gender,
            Record::WormType(_) => RecordKind::WormType,
            Record::WormStage(_) => RecordKind::WormStage,
            Record::Crop(_) => RecordKind::Crop,
            Record::Crate(_) => RecordKind::Crate,
            Record::CrateSize(_) => RecordKind::CrateSize,
            Record::Grade(_) => RecordKind::Grade,
            Record::GhCrate(_) => RecordKind::GhCrate,
            Record::GhCrop(_) => RecordKind::GhCrop,
            Record::GhGrade(_) => RecordKind::GhGrade,
            Record::ItemId(_) => RecordKind::ItemId,
            Record::ItemIdList(_) => RecordKind::ItemIdList,
        }
    }
}

/// One registry entry: a kind and its two capabilities.
#[derive(Debug, PartialEq, Eq, Structural, Clone, Copy)]
pub struct TypeRegEntry {
    pub kind: RecordKind,
    pub serialize: bool,
    pub deserialize: bool,
}

/// The explicit catalog of storable types: per kind, whether values of
/// it can be encoded and whether stored payloads of it can be decoded.
/// Registration is additive and explicit; the registry is handed to
/// the storage engine at construction and read-only afterwards.
#[derive(Debug, PartialEq, Clone)]
pub struct TypeRegistry {
    entries: Vec<TypeRegEntry>,
}

impl View for TypeRegistry {
    type V = Seq<(RecordKind, bool, bool)>;

    closed spec fn view(&self) -> Seq<(RecordKind, bool, bool)> {
        Seq::new(self.entries@.len(), |i: int|
            (self.entries@[i].kind, self.entries@[i].serialize, self.entries@[i].deserialize),
        )
    }
}

/// The first registered entry for `kind`, if any.
pub open spec fn spec_lookup(reg: Seq<(RecordKind, bool, bool)>, kind: RecordKind) -> Option<
    (RecordKind, bool, bool),
>
    decreases reg.len(),
{
    if reg.len() == 0 {
        None
    } else if reg[0].0 == kind {
        Some(reg[0])
    } else {
        spec_lookup(reg.drop_first(), kind)
    }
}

impl TypeRegistry {
    /// An empty registry: nothing can be stored or read generically.
    pub fn new() -> (r: TypeRegistry)
        ensures
            r@ == Seq::<(RecordKind, bool, bool)>::empty(),
    {
        let r = TypeRegistry { entries: Vec::new() };
        proof {
            assert(r@ =~= Seq::<(RecordKind, bool, bool)>::empty());
        }
        r
    }

    /// Register `kind` with both capabilities.
    pub fn register(&mut self, kind: RecordKind)
        ensures
            final (self)@ == old(self)@.push((kind, true, true)),
    {
        self.register_caps(kind, true, true);
    }

    /// Register `kind`, choosing its capabilities.
    pub fn register_caps(&mut self, kind: RecordKind, serialize: bool, deserialize: bool)
        ensures
            final (self)@ == old(self)@.push((kind, serialize, deserialize)),
    {
        self.entries.push(TypeRegEntry { kind, serialize, deserialize });
        proof {
            assert(self@ =~= old(self)@.push((kind, serialize, deserialize)));
        }
    }

    /// The first entry registered for `kind`, if any.
    pub fn lookup(&self, kind: RecordKind) -> (r: Option<TypeRegEntry>)
        ensures
            match r {
                Some(e) => spec_lookup(self@, kind) == Some((e.kind, e.serialize, e.deserialize))
                    && e.kind == kind,
                None => spec_lookup(self@, kind) is None,
            },
    {
        let n: usize = self.entries.len();
        let mut i: usize = 0;
        proof {
            assert(self@.skip(0) =~= self@);
        }
        while i < n
            invariant
                i <= n,
                n == self.entries@.len(),
                n == self@.len(),
                spec_lookup(self@, kind) == spec_lookup(self@.skip(i as int), kind),
                forall|j: int| 0 <= j < i ==> #[trigger] self@[j].0 != kind,
            decreases n - i,
        {
            let e = self.entries[i];
            proof {
                assert(self@.skip(i as int)[0] == self@[i as int]);
                assert(self@.skip(i as int).drop_first() =~= self@.skip(i as int + 1));
            }
            if e.kind == kind {
                return Some(e);
            }
            i = i + 1;
        }
        proof {
            assert(self@.skip(n as int) =~= Seq::<(RecordKind, bool, bool)>::empty());
        }
        None
    }

    /// The entry whose kind is registered under `name`, if any.
    pub fn get_with_name(&self, name: &String) -> (r: Option<TypeRegEntry>)
        ensures
            match r {
                Some(e) => spec_lookup(self@, e.kind) == Some((e.kind, e.serialize, e.deserialize))
                    && spec_kind_name(e.kind) == name@,
                None => forall|k: RecordKind|
                    spec_kind_name(k) == name@ ==> spec_lookup(self@, k) is None,
            },
    {
        match kind_of_name(name) {
            Some(k) => {
                let r = self.lookup(k);
                proof {
                    if r is None {
                        assert forall|k2: RecordKind| spec_kind_name(k2) == name@ implies
                            spec_lookup(self@, k2) is None by {
                            lemma_kind_names_injective(k, k2);
                        }
                    }
                }
                r
            },
            None => None,
        }
    }
}

/// Whether a text value equals a fixed name.
pub(crate) fn name_eq(a: &String, b: &'static str) -> (r: bool)
    ensures
        r == (a@ == b@),
{
    let bs = String::from_str(b);
    *a == bs
}

/// The kind registered under a name, if the name is one of the stable
/// type names.
pub fn kind_of_name(name: &String) -> (r: Option<RecordKind>)
    ensures
        r matches Some(k) ==> spec_kind_name(k) == name@,
        r is None ==> forall|k: RecordKind| spec_kind_name(k) != name@,
{
    if name_eq(name, kind_name(RecordKind::Plant)) {
        Some(RecordKind::Plant)
    } else if name_eq(name, kind_name(RecordKind::PlantTypes)) {
        Some(RecordKind::PlantTypes)
    } else if name_eq(name, kind_name(RecordKind::EventsPlant)) {
        Some(RecordKind::EventsPlant)
    } else if name_eq(name, kind_name(RecordKind::EventsPlantTypes)) {
        Some(RecordKind::EventsPlantTypes)
    } else if name_eq(name, kind_name(RecordKind::SilkWorm)) {
        Some(RecordKind::SilkWorm)
    } else if name_eq(name, kind_name(RecordKind::Gender)) {
        Some(RecordKind::Gender)
    } else if name_eq(name, kind_name(RecordKind::WormType)) {
        Some(RecordKind::WormType)
    } else if name_eq(name, kind_name(RecordKind::WormStage)) {
        Some(RecordKind::WormStage)
    } else if name_eq(name, kind_name(RecordKind::Crop)) {
        Some(RecordKind::Crop)
    } else if name_eq(name, kind_name(RecordKind::Crate)) {
        Some(RecordKind::Crate)
    } else if name_eq(name, kind_name(RecordKind::CrateSize)) {
        Some(RecordKind::CrateSize)
    } else if name_eq(name, kind_name(RecordKind::Grade)) {
        Some(RecordKind::Grade)
    } else if name_eq(name, kind_name(RecordKind::GhCrate)) {
        Some(RecordKind::GhCrate)
    } else if name_eq(name, kind_name(RecordKind::GhCrop)) {
        Some(RecordKind::GhCrop)
    } else if name_eq(name, kind_name(RecordKind::GhGrade)) {
        Some(RecordKind::GhGrade)
    } else if name_eq(name, kind_name(RecordKind::ItemId)) {
        Some(RecordKind::ItemId)
    } else if name_eq(name, kind_name(RecordKind::ItemIdList)) {
        Some(RecordKind::ItemIdList)
    } else {
        None
    }
}

/// Every byte is a hexadecimal digit.
pub open spec fn all_hex(s: Seq<u8>) -> bool {
    forall|i: int| 0 <= i < s.len() ==> is_hex_digit(#[trigger] s[i])
}

/// A date as an explicit (year, month, day) triple of hexadecimal
/// fields: the year's 16-bit pattern, then month, then day.
pub open spec fn spec_date_payload(d: Date) -> Seq<u8> {
    hex_be((d.spec_year() as u16) as u128, 4) + hex_be(d.spec_month() as u128, 2) + hex_be(
        d.spec_day() as u128,
        2,
    )
}

/// One crate field: slot tag, then variant tag.
pub open spec fn spec_field_payload(f: gh_crate::CropField) -> Seq<u8> {
    hex_be(gh_crate::spec_field_tags(f).0 as u128, 2) + hex_be(
        gh_crate::spec_field_tags(f).1 as u128,
        2,
    )
}

/// A field list, in order.
pub open spec fn spec_fields_payload(s: Seq<gh_crate::CropField>) -> Seq<u8>
    decreases s.len(),
{
    if s.len() == 0 {
        Seq::empty()
    } else {
        spec_field_payload(s[0]) + spec_fields_payload(s.drop_first())
    }
}

/// An identifier list, in order.
pub open spec fn spec_ids_payload(s: Seq<ItemId>) -> Seq<u8>
    decreases s.len(),
{
    if s.len() == 0 {
        Seq::empty()
    } else {
        hex_be(s[0].spec_val(), 32) + spec_ids_payload(s.drop_first())
    }
}

/// Whether a record fits the payload format's length fields.
pub open spec fn encodable(r: Record) -> bool {
    match r {
        Record::GhCrate(c) => c.fields@.len() <= 255,
        Record::ItemIdList(v) => v@.len() <= 65535,
        Record::SilkWorm(e) => match e {
            crate::events::silkworms::SilkWormEvents::Hatched(d) => d.wf(),
        },
        _ => true,
    }
}

/// The self-describing payload of a record: fixed-width lowercase
/// hexadecimal fields, in declaration order; lists carry their length
/// first.
pub open spec fn spec_payload(r: Record) -> Seq<u8> {
    match r {
        Record::Plant(p) => hex_be(p.id.spec_val(), 32) + hex_be(
            crate::plants::spec_plant_types_tag(p.plant_type) as u128,
            2,
        ) + hex_be(crate::plants::spec_plant_stage_tag(p.stage) as u128, 2) + hex_be(
            p.location.spec_val(),
            32,
        ),
        Record::PlantTypes(v) => hex_be(crate::plants::spec_plant_types_tag(v) as u128, 2),
        Record::EventsPlant(p) => hex_be(
            crate::events::spec_plant_types_tag(p.plant_type) as u128,
            2,
        ),
        Record::EventsPlantTypes(v) => hex_be(crate::events::spec_plant_types_tag(v) as u128, 2),
        Record::SilkWorm(e) => match e {
            crate::events::silkworms::SilkWormEvents::Hatched(d) => hex_be(0, 2)
                + spec_date_payload(d),
        },
        Record::Gender(v) => hex_be(crate::worms::spec_gender_tag(v) as u128, 2),
        Record::WormType(v) => hex_be(crate::worms::spec_worm_type_tag(v) as u128, 2),
        Record::WormStage(v) => hex_be(crate::worms::spec_worm_stage_tag(v) as u128, 2),
        Record::Crop(v) => hex_be(crate::greenhouse::spec_crop_tag(v) as u128, 2),
        Record::Crate(c) => hex_be(c.id.spec_val(), 32) + hex_be(
            crate::greenhouse::spec_crop_tag(c.crop) as u128,
            2,
        ) + hex_be(crate::greenhouse::spec_crate_size_tag(c.size) as u128, 2) + hex_be(
            crate::greenhouse::spec_grade_tag(c.grade) as u128,
            2,
        ),
        Record::CrateSize(v) => hex_be(crate::greenhouse::spec_crate_size_tag(v) as u128, 2),
        Record::Grade(v) => hex_be(crate::greenhouse::spec_grade_tag(v) as u128, 2),
        Record::GhCrate(c) => hex_be(c.id.spec_val(), 32) + hex_be(
            gh_crate::spec_crop_tag(c.crop) as u128,
            2,
        ) + hex_be(c.fields@.len() as u128, 2) + spec_fields_payload(c.fields@),
        Record::GhCrop(v) => hex_be(gh_crate::spec_crop_tag(v) as u128, 2),
        Record::GhGrade(v) => hex_be(gh_crate::spec_grade_tag(v) as u128, 2),
        Record::ItemId(id) => hex_be(id.spec_val(), 32),
        Record::ItemIdList(v) => hex_be(v@.len() as u128, 4) + spec_ids_payload(v@),
    }
}

/// A well-formed two-digit tag whose value a given partial mapping
/// accepts.
pub open spec fn valid_tag_u8(s: Seq<u8>) -> bool {
    s.len() == 2 && all_hex(s)
}

/// A well-formed single field chunk.
pub open spec fn valid_field(s: Seq<u8>) -> bool {
    s.len() == 4 && all_hex(s) && gh_crate::spec_field_from_tags(
        hex_parse(s.subrange(0, 2)) as u8,
        hex_parse(s.subrange(2, 4)) as u8,
    ) is Some
}

/// A well-formed field list: whole chunks of four digits, each a
/// valid field.
pub open spec fn valid_fields(s: Seq<u8>) -> bool
    decreases s.len(),
{
    if s.len() == 0 {
        true
    } else {
        s.len() >= 4 && valid_field(s.subrange(0, 4)) && valid_fields(s.skip(4))
    }
}

/// A well-formed identifier list body: whole chunks of 32 hexadecimal
/// digits.
pub open spec fn valid_ids(s: Seq<u8>) -> bool
    decreases s.len(),
{
    if s.len() == 0 {
        true
    } else {
        s.len() >= 32 && all_hex(s.subrange(0, 32)) && valid_ids(s.skip(32))
    }
}

/// A well-formed date body: eight hexadecimal digits whose month and
/// day fields the constructor accepts.
pub open spec fn valid_date_payload(s: Seq<u8>) -> bool {
    s.len() == 8 && all_hex(s) && crate::date::date_valid(
        (hex_parse(s.subrange(0, 4)) as u16) as i16,
        hex_parse(s.subrange(4, 6)) as u8,
        hex_parse(s.subrange(6, 8)) as u8,
    )
}

/// Whether `s` is a well-formed payload of the given kind: exactly the
/// byte strings that `decode_record` accepts.
pub open spec fn valid_payload(kind: RecordKind, s: Seq<u8>) -> bool {
    match kind {
        RecordKind::Plant => s.len() == 68 && all_hex(s) && crate::plants::spec_plant_types_from_tag(
            hex_parse(s.subrange(32, 34)) as u8,
        ) is Some && crate::plants::spec_plant_stage_from_tag(
            hex_parse(s.subrange(34, 36)) as u8,
        ) is Some,
        RecordKind::PlantTypes => valid_tag_u8(s) && crate::plants::spec_plant_types_from_tag(
            hex_parse(s) as u8,
        ) is Some,
        RecordKind::EventsPlant => valid_tag_u8(s) && crate::events::spec_plant_types_from_tag(
            hex_parse(s) as u8,
        ) is Some,
        RecordKind::EventsPlantTypes => valid_tag_u8(s) && crate::events::spec_plant_types_from_tag(
            hex_parse(s) as u8,
        ) is Some,
        RecordKind::SilkWorm => s.len() == 10 && all_hex(s) && hex_parse(s.subrange(0, 2)) == 0
            && valid_date_payload(s.skip(2)),
        RecordKind::Gender => valid_tag_u8(s) && crate::worms::spec_gender_from_tag(
            hex_parse(s) as u8,
        ) is Some,
        RecordKind::WormType => valid_tag_u8(s) && crate::worms::spec_worm_type_from_tag(
            hex_parse(s) as u8,
        ) is Some,
        RecordKind::WormStage => valid_tag_u8(s) && crate::worms::spec_worm_stage_from_tag(
            hex_parse(s) as u8,
        ) is Some,
        RecordKind::Crop => valid_tag_u8(s) && crate::greenhouse::spec_crop_from_tag(
            hex_parse(s) as u8,
        ) is Some,
        RecordKind::Crate => s.len() == 38 && all_hex(s) && crate::greenhouse::spec_crop_from_tag(
            hex_parse(s.subrange(32, 34)) as u8,
        ) is Some && crate::greenhouse::spec_crate_size_from_tag(
            hex_parse(s.subrange(34, 36)) as u8,
        ) is Some && crate::greenhouse::spec_grade_from_tag(
            hex_parse(s.subrange(36, 38)) as u8,
        ) is Some,
        RecordKind::CrateSize => valid_tag_u8(s) && crate::greenhouse::spec_crate_size_from_tag(
            hex_parse(s) as u8,
        ) is Some,
        RecordKind::Grade => valid_tag_u8(s) && crate::greenhouse::spec_grade_from_tag(
            hex_parse(s) as u8,
        ) is Some,
        RecordKind::GhCrate => s.len() >= 36 && all_hex(s.subrange(0, 36))
            && gh_crate::spec_crop_from_tag(hex_parse(s.subrange(32, 34)) as u8) is Some && s.len()
            == 36 + 4 * hex_parse(s.subrange(34, 36)) && valid_fields(s.skip(36)),
        RecordKind::GhCrop => valid_tag_u8(s) && gh_crate::spec_crop_from_tag(
            hex_parse(s) as u8,
        ) is Some,
        RecordKind::GhGrade => valid_tag_u8(s) && gh_crate::spec_grade_from_tag(
            hex_parse(s) as u8,
        ) is Some,
        RecordKind::ItemId => s.len() == 32 && all_hex(s),
        RecordKind::ItemIdList => s.len() >= 4 && all_hex(s.subrange(0, 4)) && s.len() == 4 + 32
            * hex_parse(s.subrange(0, 4)) && valid_ids(s.skip(4)),
    }
}

/// Splitting a concatenation at the length of its first part gives the
/// parts back.
pub proof fn lemma_concat_eq(a1: Seq<u8>, b1: Seq<u8>, a2: Seq<u8>, b2: Seq<u8>)
    requires
        a1.len() == a2.len(),
        a1 + b1 == a2 + b2,
    ensures
        a1 == a2,
        b1 == b2,
{
    assert forall|i: int| 0 <= i < a1.len() implies a1[i] == a2[i] by {
        assert((a1 + b1)[i] == a1[i]);
        assert((a2 + b2)[i] == a2[i]);
    }
    assert(a1 =~= a2);
    vstd::seq::axiom_seq_add_len(a1, b1);
    vstd::seq::axiom_seq_add_len(a2, b2);
    assert((a1 + b1).len() == (a2 + b2).len());
    assert(b1.len() == b2.len());
    assert forall|i: int| 0 <= i < b1.len() implies b1[i] == b2[i] by {
        assert((a1 + b1)[i + a1.len()] == b1[i]);
        assert((a2 + b2)[i + a2.len()] == b2[i]);
    }
    assert(b1 =~= b2);
}

/// Equal fixed-width renderings of in-range values come from equal
/// values.
pub proof fn lemma_hex_inj(v1: u128, v2: u128, n: nat)
    requires
        hex_be(v1, n) == hex_be(v2, n),
        v1 < pow16(n),
        v2 < pow16(n),
        n <= 32,
    ensures
        v1 == v2,
{
    crate::codec::lemma_hex_roundtrip(v1, n);
    crate::codec::lemma_hex_roundtrip(v2, n);
}

/// Shape of a field list rendering: four digits per field, all
/// hexadecimal.
pub proof fn lemma_fields_payload_shape(s: Seq<gh_crate::CropField>)
    ensures
        spec_fields_payload(s).len() == 4 * s.len(),
        all_hex(spec_fields_payload(s)),
    decreases s.len(),
{
    if s.len() > 0 {
        lemma_fields_payload_shape(s.drop_first());
        crate::codec::lemma_hex_be_shape(gh_crate::spec_field_tags(s[0]).0 as u128, 2);
        crate::codec::lemma_hex_be_shape(gh_crate::spec_field_tags(s[0]).1 as u128, 2);
    }
}

/// Appending one field appends its rendering.
pub proof fn lemma_fields_payload_push(s: Seq<gh_crate::CropField>, x: gh_crate::CropField)
    ensures
        spec_fields_payload(s.push(x)) == spec_fields_payload(s) + spec_field_payload(x),
    decreases s.len(),
{
    if s.len() == 0 {
        assert(s.push(x).drop_first() =~= s);
        assert(s.push(x)[0] == x);
        assert(spec_fields_payload(s.push(x)) =~= spec_fields_payload(s) + spec_field_payload(x));
    } else {
        assert(s.push(x).drop_first() =~= s.drop_first().push(x));
        lemma_fields_payload_push(s.drop_first(), x);
        assert(s.push(x)[0] == s[0]);
        assert(spec_fields_payload(s.push(x)) =~= spec_fields_payload(s) + spec_field_payload(x));
    }
}

/// Shape of an identifier list rendering.
pub proof fn lemma_ids_payload_shape(s: Seq<ItemId>)
    ensures
        spec_ids_payload(s).len() == 32 * s.len(),
        all_hex(spec_ids_payload(s)),
    decreases s.len(),
{
    if s.len() > 0 {
        lemma_ids_payload_shape(s.drop_first());
        crate::codec::lemma_hex_be_shape(s[0].spec_val(), 32);
    }
}

/// Appending one identifier appends its rendering.
pub proof fn lemma_ids_payload_push(s: Seq<ItemId>, x: ItemId)
    ensures
        spec_ids_payload(s.push(x)) == spec_ids_payload(s) + hex_be(x.spec_val(), 32),
    decreases s.len(),
{
    if s.len() == 0 {
        assert(s.push(x).drop_first() =~= s);
        assert(s.push(x)[0] == x);
        assert(spec_ids_payload(s.push(x)) =~= spec_ids_payload(s) + hex_be(x.spec_val(), 32));
    } else {
        assert(s.push(x).drop_first() =~= s.drop_first().push(x));
        lemma_ids_payload_push(s.drop_first(), x);
        assert(s.push(x)[0] == s[0]);
        assert(spec_ids_payload(s.push(x)) =~= spec_ids_payload(s) + hex_be(x.spec_val(), 32));
    }
}

/// The rendering of one field is a valid field chunk, and parses back
/// to the field.
pub proof fn lemma_field_payload_valid(f: gh_crate::CropField)
    ensures
        valid_field(spec_field_payload(f)),
        gh_crate::spec_field_from_tags(
            hex_parse(spec_field_payload(f).subrange(0, 2)) as u8,
            hex_parse(spec_field_payload(f).subrange(2, 4)) as u8,
        ) == Some(f),
{
    let k = gh_crate::spec_field_tags(f).0;
    let t = gh_crate::spec_field_tags(f).1;
    crate::codec::lemma_pow16_32();
    crate::codec::lemma_hex_be_shape(k as u128, 2);
    crate::codec::lemma_hex_be_shape(t as u128, 2);
    assert(spec_field_payload(f).subrange(0, 2) =~= hex_be(k as u128, 2));
    assert(spec_field_payload(f).subrange(2, 4) =~= hex_be(t as u128, 2));
    crate::codec::lemma_hex_roundtrip(k as u128, 2);
    crate::codec::lemma_hex_roundtrip(t as u128, 2);
    gh_crate::lemma_field_tags_exact(f, k, t);
}

/// The rendering of a field list is a valid field list body.
pub proof fn lemma_fields_payload_valid(s: Seq<gh_crate::CropField>)
    ensures
        valid_fields(spec_fields_payload(s)),
    decreases s.len(),
{
    if s.len() > 0 {
        lemma_fields_payload_valid(s.drop_first());
        lemma_field_payload_valid(s[0]);
        lemma_fields_payload_shape(s.drop_first());
        crate::codec::lemma_hex_be_shape(gh_crate::spec_field_tags(s[0]).0 as u128, 2);
        crate::codec::lemma_hex_be_shape(gh_crate::spec_field_tags(s[0]).1 as u128, 2);
        let w = spec_fields_payload(s);
        assert(w.subrange(0, 4) =~= spec_field_payload(s[0]));
        assert(w.skip(4) =~= spec_fields_payload(s.drop_first()));
    }
}

/// The rendering of an identifier list is a valid identifier list
/// body.
pub proof fn lemma_ids_payload_valid(s: Seq<ItemId>)
    ensures
        valid_ids(spec_ids_payload(s)),
    decreases s.len(),
{
    if s.len() > 0 {
        lemma_ids_payload_valid(s.drop_first());
        lemma_ids_payload_shape(s.drop_first());
        crate::codec::lemma_hex_be_shape(s[0].spec_val(), 32);
        crate::codec::lemma_hex_be_shape(s[0].spec_val(), 32);
        let w = spec_ids_payload(s);
        crate::codec::lemma_hex_be_shape(s[0].spec_val(), 32);
        assert(all_hex(w.subrange(0, 32))) by {
            assert(w.subrange(0, 32) =~= hex_be(s[0].spec_val(), 32));
        }
        assert(w.skip(32) =~= spec_ids_payload(s.drop_first()));
    }
}

/// Equal renderings of equal-length field lists come from equal lists.
pub proof fn lemma_fields_payload_inj(s1: Seq<gh_crate::CropField>, s2: Seq<gh_crate::CropField>)
    requires
        s1.len() == s2.len(),
        spec_fields_payload(s1) == spec_fields_payload(s2),
    ensures
        s1 == s2,
    decreases s1.len(),
{
    if s1.len() == 0 {
        assert(s1 =~= s2);
    } else {
        crate::codec::lemma_pow16_32();
        let f1 = s1[0];
        let f2 = s2[0];
        crate::codec::lemma_hex_be_shape(gh_crate::spec_field_tags(f1).0 as u128, 2);
        crate::codec::lemma_hex_be_shape(gh_crate::spec_field_tags(f1).1 as u128, 2);
        crate::codec::lemma_hex_be_shape(gh_crate::spec_field_tags(f2).0 as u128, 2);
        crate::codec::lemma_hex_be_shape(gh_crate::spec_field_tags(f2).1 as u128, 2);
        lemma_concat_eq(
            spec_field_payload(f1),
            spec_fields_payload(s1.drop_first()),
            spec_field_payload(f2),
            spec_fields_payload(s2.drop_first()),
        );
        lemma_field_payload_valid(f1);
        lemma_field_payload_valid(f2);
        assert(f1 == f2);
        lemma_fields_payload_inj(s1.drop_first(), s2.drop_first());
        assert forall|i: int| 0 <= i < s1.len() implies s1[i] == s2[i] by {
            if i > 0 {
                assert(s1.drop_first()[i - 1] == s1[i]);
                assert(s2.drop_first()[i - 1] == s2[i]);
            }
        }
        assert(s1 =~= s2);
    }
}

/// Equal renderings of equal-length identifier lists come from equal
/// lists.
pub proof fn lemma_ids_payload_inj(s1: Seq<ItemId>, s2: Seq<ItemId>)
    requires
        s1.len() == s2.len(),
        spec_ids_payload(s1) == spec_ids_payload(s2),
    ensures
        s1 == s2,
    decreases s1.len(),
{
    if s1.len() == 0 {
        assert(s1 =~= s2);
    } else {
        crate::codec::lemma_pow16_32();
        crate::codec::lemma_hex_be_shape(s1[0].spec_val(), 32);
        crate::codec::lemma_hex_be_shape(s2[0].spec_val(), 32);
        lemma_concat_eq(
            hex_be(s1[0].spec_val(), 32),
            spec_ids_payload(s1.drop_first()),
            hex_be(s2[0].spec_val(), 32),
            spec_ids_payload(s2.drop_first()),
        );
        lemma_hex_inj(s1[0].spec_val(), s2[0].spec_val(), 32);
        lemma_ids_payload_inj(s1.drop_first(), s2.drop_first());
        assert forall|i: int| 0 <= i < s1.len() implies s1[i] == s2[i] by {
            if i > 0 {
                assert(s1.drop_first()[i - 1] == s1[i]);
                assert(s2.drop_first()[i - 1] == s2[i]);
            }
        }
        assert(s1 =~= s2);
    }
}

/// Read one two-digit tag that is the whole payload.
fn decode_tag(payload: &Vec<u8>) -> (r: Option<u8>)
    ensures
        r is Some <==> valid_tag_u8(payload@),
        r matches Some(t) ==> payload@ == hex_be(t as u128, 2) && t == hex_parse(payload@) as u8,
{
    proof {
        crate::codec::lemma_pow16_32();
    }
    if payload.len() != 2 {
        return None;
    }
    match parse_hex(payload, 0, 2) {
        Some(v) => {
            proof {
                assert(payload@.subrange(0, 2) =~= payload@);
            }
            Some(v as u8)
        },
        None => None,
    }
}

/// Encode a record into its payload; fails only when a list inside it
/// exceeds the format's length field.
pub fn encode_record(r: &Record) -> (res: Result<Vec<u8>, DbError>)
    ensures
        res is Ok <==> encodable(*r),
        res matches Ok(v) ==> v@ == spec_payload(*r),
        res is Err ==> res matches Err(DbError::EncodingError),
{
    proof {
        crate::codec::lemma_pow16_32();
    }
    match r {
        Record::PlantTypes(v) => {
            let mut out: Vec<u8> = Vec::new();
            push_hex(&mut out, v.tag() as u128, 2);
            proof {
                assert(out@ =~= spec_payload(*r));
            }
            Ok(out)
        },
        Record::EventsPlantTypes(v) => {
            let mut out: Vec<u8> = Vec::new();
            push_hex(&mut out, v.tag() as u128, 2);
            proof {
                assert(out@ =~= spec_payload(*r));
            }
            Ok(out)
        },
        Record::Gender(v) => {
            let mut out: Vec<u8> = Vec::new();
            push_hex(&mut out, v.tag() as u128, 2);
            proof {
                assert(out@ =~= spec_payload(*r));
            }
            Ok(out)
        },
        Record::WormType(v) => {
            let mut out: Vec<u8> = Vec::new();
            push_hex(&mut out, v.tag() as u128, 2);
            proof {
                assert(out@ =~= spec_payload(*r));
            }
            Ok(out)
        },
        Record::WormStage(v) => {
            let mut out: Vec<u8> = Vec::new();
            push_hex(&mut out, v.tag() as u128, 2);
            proof {
                assert(out@ =~= spec_payload(*r));
            }
            Ok(out)
        },
        Record::Crop(v) => {
            let mut out: Vec<u8> = Vec::new();
            push_hex(&mut out, v.tag() as u128, 2);
            proof {
                assert(out@ =~= spec_payload(*r));
            }
            Ok(out)
        },
        Record::CrateSize(v) => {
            let mut out: Vec<u8> = Vec::new();
            push_hex(&mut out, v.tag() as u128, 2);
            proof {
                assert(out@ =~= spec_payload(*r));
            }
            Ok(out)
        },
        Record::Grade(v) => {
            let mut out: Vec<u8> = Vec::new();
            push_hex(&mut out, v.tag() as u128, 2);
            proof {
                assert(out@ =~= spec_payload(*r));
            }
            Ok(out)
        },
        Record::GhCrop(v) => {
            let mut out: Vec<u8> = Vec::new();
            push_hex(&mut out, v.tag() as u128, 2);
            proof {
                assert(out@ =~= spec_payload(*r));
            }
            Ok(out)
        },
        Record::GhGrade(v) => {
            let mut out: Vec<u8> = Vec::new();
            push_hex(&mut out, v.tag() as u128, 2);
            proof {
                assert(out@ =~= spec_payload(*r));
            }
            Ok(out)
        },
        Record::Plant(p) => {
            let mut out: Vec<u8> = Vec::new();
            push_hex(&mut out, p.id.0, 32);
            push_hex(&mut out, p.plant_type.tag() as u128, 2);
            push_hex(&mut out, p.stage.tag() as u128, 2);
            push_hex(&mut out, p.location.0, 32);
            proof {
                assert(out@ =~= spec_payload(*r));
            }
            Ok(out)
        },
        Record::EventsPlant(p) => {
            let mut out: Vec<u8> = Vec::new();
            push_hex(&mut out, p.plant_type.tag() as u128, 2);
            proof {
                assert(out@ =~= spec_payload(*r));
            }
            Ok(out)
        },
        Record::SilkWorm(e) => {
            let crate::events::silkworms::SilkWormEvents::Hatched(d) = e;
            if !d.check_wf() {
                return Err(DbError::EncodingError);
            }
            let mut out: Vec<u8> = Vec::new();
            push_hex(&mut out, 0, 2);
            push_hex(&mut out, (d.year() as u16) as u128, 4);
            push_hex(&mut out, d.month() as u128, 2);
            push_hex(&mut out, d.day() as u128, 2);
            proof {
                assert(out@ =~= spec_payload(*r));
            }
            Ok(out)
        },
        Record::Crate(c) => {
            let mut out: Vec<u8> = Vec::new();
            push_hex(&mut out, c.id.0, 32);
            push_hex(&mut out, c.crop.tag() as u128, 2);
            push_hex(&mut out, c.size.tag() as u128, 2);
            push_hex(&mut out, c.grade.tag() as u128, 2);
            proof {
                assert(out@ =~= spec_payload(*r));
            }
            Ok(out)
        },
        Record::GhCrate(c) => {
            let fv = c.fields.as_vec();
            let n: usize = fv.len();
            if n > 255 {
                return Err(DbError::EncodingError);
            }
            let mut out: Vec<u8> = Vec::new();
            push_hex(&mut out, c.id.0, 32);
            push_hex(&mut out, c.crop.tag() as u128, 2);
            push_hex(&mut out, n as u128, 2);
            let ghost head = out@;
            let mut i: usize = 0;
            proof {
                assert(fv@.take(0) =~= Seq::<gh_crate::CropField>::empty());
            }
            while i < n
                invariant
                    i <= n,
                    n == fv@.len(),
                    out@ == head + spec_fields_payload(fv@.take(i as int)),
                decreases n - i,
            {
                let (k, t) = fv[i].wire_tags();
                push_hex(&mut out, k as u128, 2);
                push_hex(&mut out, t as u128, 2);
                proof {
                    assert(fv@.take(i + 1) =~= fv@.take(i as int).push(fv@[i as int]));
                    lemma_fields_payload_push(fv@.take(i as int), fv@[i as int]);
                    assert(out@ =~= head + spec_fields_payload(fv@.take(i + 1)));
                }
                i = i + 1;
            }
            proof {
                assert(fv@.take(n as int) =~= fv@);
                assert(out@ =~= spec_payload(*r));
            }
            Ok(out)
        },
        Record::ItemId(id) => {
            let mut out: Vec<u8> = Vec::new();
            push_hex(&mut out, id.0, 32);
            proof {
                assert(out@ =~= spec_payload(*r));
            }
            Ok(out)
        },
        Record::ItemIdList(v) => {
            let n: usize = v.len();
            if n > 65535 {
                return Err(DbError::EncodingError);
            }
            let mut out: Vec<u8> = Vec::new();
            push_hex(&mut out, n as u128, 4);
            let ghost head = out@;
            let mut i: usize = 0;
            proof {
                assert(v@.take(0) =~= Seq::<ItemId>::empty());
            }
            while i < n
                invariant
                    i <= n,
                    n == v@.len(),
                    out@ == head + spec_ids_payload(v@.take(i as int)),
                decreases n - i,
            {
                push_hex(&mut out, v[i].0, 32);
                proof {
                    assert(v@.take(i + 1) =~= v@.take(i as int).push(v@[i as int]));
                    lemma_ids_payload_push(v@.take(i as int), v@[i as int]);
                    assert(out@ =~= head + spec_ids_payload(v@.take(i + 1)));
                }
                i = i + 1;
            }
            proof {
                assert(v@.take(n as int) =~= v@);
                assert(out@ =~= spec_payload(*r));
            }
            Ok(out)
        },
    }
}


/// One step of reading a crate field list: the chunk at `pos` is the
/// rendering of `f`, well-formedness of the remaining tail reduces by
/// one chunk, and the consumed prefix grows by the chunk.
proof fn lemma_field_chunk_step(payload: Seq<u8>, pos: int, f: gh_crate::CropField, k: u128, t: u128)
    requires
        36 <= pos,
        pos + 4 <= payload.len(),
        hex_be(k, 2) == payload.subrange(pos, pos + 2),
        k < 256,
        hex_be(t, 2) == payload.subrange(pos + 2, pos + 4),
        t < 256,
        gh_crate::spec_field_from_tags(k as u8, t as u8) == Some(f),
    ensures
        spec_field_payload(f) == payload.subrange(pos, pos + 4),
        valid_fields(payload.skip(pos)) <==> valid_fields(payload.skip(pos + 4)),
        payload.subrange(36, pos) + payload.subrange(pos, pos + 4) == payload.subrange(
            36,
            pos + 4,
        ),
{
    crate::codec::lemma_pow16_32();
    gh_crate::lemma_field_tags_exact(f, k as u8, t as u8);
    crate::codec::lemma_hex_be_shape(k, 2);
    crate::codec::lemma_hex_be_shape(t, 2);
    assert(((k as u8) as u128) == k && ((t as u8) as u128) == t);
    assert(payload.subrange(pos, pos + 2) + payload.subrange(pos + 2, pos + 4) =~= payload.subrange(
        pos,
        pos + 4,
    ));
    assert(spec_field_payload(f) == payload.subrange(pos, pos + 4));
    let tail = payload.skip(pos);
    assert(tail.subrange(0, 4) =~= payload.subrange(pos, pos + 4));
    assert(tail.subrange(0, 4).subrange(0, 2) =~= payload.subrange(pos, pos + 2));
    assert(tail.subrange(0, 4).subrange(2, 4) =~= payload.subrange(pos + 2, pos + 4));
    crate::codec::lemma_hex_roundtrip(k, 2);
    crate::codec::lemma_hex_roundtrip(t, 2);
    assert(all_hex(tail.subrange(0, 4))) by {
        crate::codec::lemma_hex_be_shape(k, 2);
        crate::codec::lemma_hex_be_shape(t, 2);
        assert(forall|q: int|
            0 <= q < 2 ==> is_hex_digit(#[trigger] hex_be(k, 2)[q]) && is_hex_digit(
                hex_be(t, 2)[q],
            ));
        assert(forall|q: int|
            0 <= q < 4 ==> tail.subrange(0, 4)[q] == (if q < 2 {
                hex_be(k, 2)[q]
            } else {
                hex_be(t, 2)[q - 2]
            }));
    }
    assert(valid_field(tail.subrange(0, 4)));
    assert(tail.skip(4) =~= payload.skip(pos + 4));
    assert(tail.len() >= 4);
    assert(payload.subrange(36, pos) + payload.subrange(pos, pos + 4) =~= payload.subrange(
        36,
        pos + 4,
    ));
}

/// A chunk that does not read as a field refutes the whole tail.
proof fn lemma_field_chunk_bad(payload: Seq<u8>, pos: int)
    requires
        36 <= pos,
        pos + 4 <= payload.len(),
        !(all_hex(payload.subrange(pos, pos + 4)) && gh_crate::spec_field_from_tags(
            hex_parse(payload.subrange(pos, pos + 2)) as u8,
            hex_parse(payload.subrange(pos + 2, pos + 4)) as u8,
        ) is Some),
    ensures
        !valid_fields(payload.skip(pos)),
{
    let tail = payload.skip(pos);
    assert(tail.subrange(0, 4) =~= payload.subrange(pos, pos + 4));
    assert(tail.subrange(0, 4).subrange(0, 2) =~= payload.subrange(pos, pos + 2));
    assert(tail.subrange(0, 4).subrange(2, 4) =~= payload.subrange(pos + 2, pos + 4));
    assert(!valid_field(tail.subrange(0, 4))) by {
        if all_hex(payload.subrange(pos, pos + 4)) {
        } else {
            let q = choose|q: int|
                0 <= q < 4 && !is_hex_digit(#[trigger] payload.subrange(pos, pos + 4)[q]);
            assert(tail.subrange(0, 4)[q] == payload.subrange(pos, pos + 4)[q]);
        }
    }
}

/// One step of reading an identifier list.
proof fn lemma_id_chunk_step(payload: Seq<u8>, pos: int, v: u128)
    requires
        4 <= pos,
        pos + 32 <= payload.len(),
        hex_be(v, 32) == payload.subrange(pos, pos + 32),
        forall|q: int| pos <= q < pos + 32 ==> is_hex_digit(#[trigger] payload[q]),
    ensures
        valid_ids(payload.skip(pos)) <==> valid_ids(payload.skip(pos + 32)),
        payload.subrange(4, pos) + payload.subrange(pos, pos + 32) == payload.subrange(
            4,
            pos + 32,
        ),
{
    let tail = payload.skip(pos);
    assert(tail.subrange(0, 32) =~= payload.subrange(pos, pos + 32));
    assert(all_hex(tail.subrange(0, 32))) by {
        assert(forall|q: int| 0 <= q < 32 ==> tail.subrange(0, 32)[q] == payload[q + pos]);
    }
    assert(tail.skip(32) =~= payload.skip(pos + 32));
    assert(tail.len() >= 32);
    assert(payload.subrange(4, pos) + payload.subrange(pos, pos + 32) =~= payload.subrange(
        4,
        pos + 32,
    ));
}


/// Decode one payload of the `Plant` kind.
fn decode_plant(payload: &Vec<u8>) -> (res: Result<Record, DbError>)
    ensures
        res is Ok <==> valid_payload(RecordKind::Plant, payload@),
        res matches Ok(v) ==> record_kind(v) == RecordKind::Plant && encodable(v) && payload@
            == spec_payload(v),
        res is Err ==> res matches Err(DbError::MalformedPayload),
{
    proof {
        crate::codec::lemma_pow16_32();
    }

            if payload.len() != 68 {
                return Err(DbError::MalformedPayload);
            }
            let idv = match parse_hex(payload, 0, 32) {
                Some(v) => v,
                None => {
                    return Err(DbError::MalformedPayload);
                },
            };
            let t1 = match parse_hex(payload, 32, 2) {
                Some(v) => v,
                None => {
                    return Err(DbError::MalformedPayload);
                },
            };
            let t2 = match parse_hex(payload, 34, 2) {
                Some(v) => v,
                None => {
                    return Err(DbError::MalformedPayload);
                },
            };
            let locv = match parse_hex(payload, 36, 32) {
                Some(v) => v,
                None => {
                    return Err(DbError::MalformedPayload);
                },
            };
            let pt = match crate::plants::PlantTypes::from_tag(t1 as u8) {
                Some(v) => v,
                None => {
                    return Err(DbError::MalformedPayload);
                },
            };
            let st = match crate::plants::Stage::from_tag(t2 as u8) {
                Some(v) => v,
                None => {
                    return Err(DbError::MalformedPayload);
                },
            };
            let rec = Record::Plant(
                crate::plants::Plant {
                    id: ItemId(idv),
                    plant_type: pt,
                    stage: st,
                    location: ItemId(locv),
                },
            );
            proof {
                assert(payload@ =~= payload@.subrange(0, 32) + payload@.subrange(32, 34)
                    + payload@.subrange(34, 36) + payload@.subrange(36, 68));
                assert(payload@ == spec_payload(rec));
            }
            Ok(rec)
        
}

/// Decode one payload of the `SilkWorm` kind.
fn decode_silkworm(payload: &Vec<u8>) -> (res: Result<Record, DbError>)
    ensures
        res is Ok <==> valid_payload(RecordKind::SilkWorm, payload@),
        res matches Ok(v) ==> record_kind(v) == RecordKind::SilkWorm && encodable(v) && payload@
            == spec_payload(v),
        res is Err ==> res matches Err(DbError::MalformedPayload),
{
    proof {
        crate::codec::lemma_pow16_32();
    }

            if payload.len() != 10 {
                return Err(DbError::MalformedPayload);
            }
            let tag = match parse_hex(payload, 0, 2) {
                Some(v) => v,
                None => {
                    return Err(DbError::MalformedPayload);
                },
            };
            if tag != 0 {
                return Err(DbError::MalformedPayload);
            }
            let y4 = match parse_hex(payload, 2, 4) {
                Some(v) => v,
                None => {
                    proof {
                        assert(!all_hex(payload@));
                    }
                    return Err(DbError::MalformedPayload);
                },
            };
            let m2 = match parse_hex(payload, 6, 2) {
                Some(v) => v,
                None => {
                    proof {
                        assert(!all_hex(payload@));
                    }
                    return Err(DbError::MalformedPayload);
                },
            };
            let d2 = match parse_hex(payload, 8, 2) {
                Some(v) => v,
                None => {
                    proof {
                        assert(!all_hex(payload@));
                    }
                    return Err(DbError::MalformedPayload);
                },
            };
            proof {
                crate::codec::lemma_pow16_mono(4, 32);
                assert(payload@.skip(2).subrange(0, 4) =~= payload@.subrange(2, 6));
                assert(payload@.skip(2).subrange(4, 6) =~= payload@.subrange(6, 8));
                assert(payload@.skip(2).subrange(6, 8) =~= payload@.subrange(8, 10));
            }
            let y: i16 = (y4 as u16) as i16;
            let m: u8 = m2 as u8;
            let d: u8 = d2 as u8;
            proof {
                assert((((y4 as u16) as i16) as u16) == y4 as u16) by (bit_vector);
            }
            if !(1 <= m && m <= 12 && 1 <= d && d <= (
            if m == 2 {
                29
            } else {
                crate::date::days_in_month(m)
            })) {
                return Err(DbError::MalformedPayload);
            }
            let date = Date::new_ymd(y, m, d);
            let rec = Record::SilkWorm(crate::events::silkworms::SilkWormEvents::Hatched(date));
            proof {
                assert(payload@ =~= payload@.subrange(0, 2) + payload@.subrange(2, 6)
                    + payload@.subrange(6, 8) + payload@.subrange(8, 10));
                assert((date.spec_year() as u16) as u128 == y4);
                assert(payload@ == spec_payload(rec));
                assert(payload@.skip(2).len() == 8);
                assert(all_hex(payload@.skip(2)));
                assert(valid_date_payload(payload@.skip(2)));
            }
            Ok(rec)
        
}

/// Decode one payload of the `Crate` kind.
fn decode_crate_rec(payload: &Vec<u8>) -> (res: Result<Record, DbError>)
    ensures
        res is Ok <==> valid_payload(RecordKind::Crate, payload@),
        res matches Ok(v) ==> record_kind(v) == RecordKind::Crate && encodable(v) && payload@
            == spec_payload(v),
        res is Err ==> res matches Err(DbError::MalformedPayload),
{
    proof {
        crate::codec::lemma_pow16_32();
    }

            if payload.len() != 38 {
                return Err(DbError::MalformedPayload);
            }
            let idv = match parse_hex(payload, 0, 32) {
                Some(v) => v,
                None => {
                    return Err(DbError::MalformedPayload);
                },
            };
            let t1 = match parse_hex(payload, 32, 2) {
                Some(v) => v,
                None => {
                    return Err(DbError::MalformedPayload);
                },
            };
            let t2 = match parse_hex(payload, 34, 2) {
                Some(v) => v,
                None => {
                    return Err(DbError::MalformedPayload);
                },
            };
            let t3 = match parse_hex(payload, 36, 2) {
                Some(v) => v,
                None => {
                    return Err(DbError::MalformedPayload);
                },
            };
            let crop = match crate::greenhouse::Crop::from_tag(t1 as u8) {
                Some(v) => v,
                None => {
                    return Err(DbError::MalformedPayload);
                },
            };
            let size = match crate::greenhouse::CrateSize::from_tag(t2 as u8) {
                Some(v) => v,
                None => {
                    return Err(DbError::MalformedPayload);
                },
            };
            let grade = match crate::greenhouse::Grade::from_tag(t3 as u8) {
                Some(v) => v,
                None => {
                    return Err(DbError::MalformedPayload);
                },
            };
            let rec = Record::Crate(
                crate::greenhouse::Crate { id: ItemId(idv), crop, size, grade },
            );
            proof {
                assert(payload@ =~= payload@.subrange(0, 32) + payload@.subrange(32, 34)
                    + payload@.subrange(34, 36) + payload@.subrange(36, 38));
                assert(payload@ == spec_payload(rec));
            }
            Ok(rec)
        
}

/// Decode one payload of the `GhCrate` kind.
fn decode_gh_crate_rec(payload: &Vec<u8>) -> (res: Result<Record, DbError>)
    ensures
        res is Ok <==> valid_payload(RecordKind::GhCrate, payload@),
        res matches Ok(v) ==> record_kind(v) == RecordKind::GhCrate && encodable(v) && payload@
            == spec_payload(v),
        res is Err ==> res matches Err(DbError::MalformedPayload),
{
    proof {
        crate::codec::lemma_pow16_32();
    }

            if payload.len() < 36 {
                return Err(DbError::MalformedPayload);
            }
            let idv = match parse_hex(payload, 0, 32) {
                Some(v) => v,
                None => {
                    proof {
                        let q = choose|q: int| 0 <= q < 32 && !is_hex_digit(payload@[q]);
                        assert(payload@.subrange(0, 36)[q] == payload@[q]);
                        assert(!all_hex(payload@.subrange(0, 36)));
                    }
                    return Err(DbError::MalformedPayload);
                },
            };
            let t1 = match parse_hex(payload, 32, 2) {
                Some(v) => v,
                None => {
                    proof {
                        let q = choose|q: int| 32 <= q < 34 && !is_hex_digit(payload@[q]);
                        assert(payload@.subrange(0, 36)[q] == payload@[q]);
                        assert(!all_hex(payload@.subrange(0, 36)));
                    }
                    return Err(DbError::MalformedPayload);
                },
            };
            let nv = match parse_hex(payload, 34, 2) {
                Some(v) => v,
                None => {
                    proof {
                        let q = choose|q: int| 34 <= q < 36 && !is_hex_digit(payload@[q]);
                        assert(payload@.subrange(0, 36)[q] == payload@[q]);
                        assert(!all_hex(payload@.subrange(0, 36)));
                    }
                    return Err(DbError::MalformedPayload);
                },
            };
            let crop = match gh_crate::Crop::from_tag(t1 as u8) {
                Some(v) => v,
                None => {
                    return Err(DbError::MalformedPayload);
                },
            };
            let n: usize = nv as usize;
            if payload.len() != 36 + 4 * n {
                return Err(DbError::MalformedPayload);
            }
            let mut fvec: Vec<gh_crate::CropField> = Vec::new();
            let mut i: usize = 0;
            proof {
                assert(payload@.subrange(36, 36) =~= spec_fields_payload(fvec@));
            }
            while i < n
                invariant
                    i <= n,
                    n <= 255,
                    payload@.len() == 36 + 4 * n,
                    fvec@.len() == i,
                    spec_fields_payload(fvec@) == payload@.subrange(36, 36 + 4 * i as int),
                    valid_fields(payload@.skip(36)) <==> valid_fields(
                        payload@.skip(36 + 4 * i as int),
                    ),
                decreases n - i,
            {
                let pos: usize = 36 + 4 * i;
                let k = match parse_hex(payload, pos, 2) {
                    Some(v) => v,
                    None => {
                        proof {
                            let q = choose|q: int|
                                pos <= q < pos + 2 && !is_hex_digit(payload@[q]);
                            assert(payload@.subrange(pos as int, pos + 4)[q - pos] == payload@[q]);
                            lemma_field_chunk_bad(payload@, pos as int);
                        }
                        return Err(DbError::MalformedPayload);
                    },
                };
                let t = match parse_hex(payload, pos + 2, 2) {
                    Some(v) => v,
                    None => {
                        proof {
                            let q = choose|q: int|
                                pos + 2 <= q < pos + 4 && !is_hex_digit(payload@[q]);
                            assert(payload@.subrange(pos as int, pos + 4)[q - pos] == payload@[q]);
                            lemma_field_chunk_bad(payload@, pos as int);
                        }
                        return Err(DbError::MalformedPayload);
                    },
                };
                let f = match gh_crate::CropField::from_tags(k as u8, t as u8) {
                    Some(v) => v,
                    None => {
                        proof {
                            crate::codec::lemma_pow16_32();
                            assert(((k as u8) as u128) == k && ((t as u8) as u128) == t);
                            lemma_field_chunk_bad(payload@, pos as int);
                        }
                        return Err(DbError::MalformedPayload);
                    },
                };
                let ghost pre = fvec@;
                fvec.push(f);
                proof {
                    crate::codec::lemma_pow16_32();
                    lemma_field_chunk_step(payload@, pos as int, f, k, t);
                    lemma_fields_payload_push(pre, f);
                    assert(fvec@ == pre.push(f));
                    assert(spec_fields_payload(fvec@) == payload@.subrange(36, pos + 4));
                }
                i = i + 1;
            }
            let rec = Record::GhCrate(
                gh_crate::Crate {
                    id: ItemId(idv),
                    crop,
                    fields: gh_crate::Fields::from_vec(fvec),
                },
            );
            proof {
                assert(payload@.skip(36 + 4 * n as int) =~= Seq::<u8>::empty());
                assert(valid_fields(payload@.skip(36)));
                assert(all_hex(payload@.subrange(0, 36))) by {
                    assert(payload@.subrange(0, 36) =~= payload@.subrange(0, 32)
                        + payload@.subrange(32, 34) + payload@.subrange(34, 36));
                }
                assert(payload@ =~= payload@.subrange(0, 32) + payload@.subrange(32, 34)
                    + payload@.subrange(34, 36) + payload@.subrange(36, payload@.len() as int));
                assert(payload@.subrange(36, payload@.len() as int) == spec_fields_payload(
                    fvec@,
                ));
                assert(payload@ == spec_payload(rec));
            }
            Ok(rec)
        
}

/// Decode one payload of the `ItemIdList` kind.
fn decode_id_list(payload: &Vec<u8>) -> (res: Result<Record, DbError>)
    ensures
        res is Ok <==> valid_payload(RecordKind::ItemIdList, payload@),
        res matches Ok(v) ==> record_kind(v) == RecordKind::ItemIdList && encodable(v) && payload@
            == spec_payload(v),
        res is Err ==> res matches Err(DbError::MalformedPayload),
{
    proof {
        crate::codec::lemma_pow16_32();
    }

            if payload.len() < 4 {
                return Err(DbError::MalformedPayload);
            }
            let nv = match parse_hex(payload, 0, 4) {
                Some(v) => v,
                None => {
                    proof {
                        let q = choose|q: int| 0 <= q < 4 && !is_hex_digit(payload@[q]);
                        assert(payload@.subrange(0, 4)[q] == payload@[q]);
                    }
                    return Err(DbError::MalformedPayload);
                },
            };
            proof {
                crate::codec::lemma_pow16_mono(4, 32);
            }
            let n: usize = nv as usize;
            if payload.len() != 4 + 32 * n {
                return Err(DbError::MalformedPayload);
            }
            let mut ids: Vec<ItemId> = Vec::new();
            let mut i: usize = 0;
            proof {
                assert(payload@.subrange(4, 4) =~= spec_ids_payload(ids@));
            }
            while i < n
                invariant
                    i <= n,
                    n <= 65535,
                    payload@.len() == 4 + 32 * n,
                    ids@.len() == i,
                    spec_ids_payload(ids@) == payload@.subrange(4, 4 + 32 * i as int),
                    valid_ids(payload@.skip(4)) <==> valid_ids(payload@.skip(4 + 32 * i as int)),
                decreases n - i,
            {
                let pos: usize = 4 + 32 * i;
                let v = match parse_hex(payload, pos, 32) {
                    Some(v) => v,
                    None => {
                        proof {
                            let tail = payload@.skip(pos as int);
                            let q = choose|q: int|
                                pos <= q < pos + 32 && !is_hex_digit(payload@[q]);
                            assert(tail.subrange(0, 32)[q - pos] == payload@[q]);
                            assert(!all_hex(tail.subrange(0, 32)));
                        }
                        return Err(DbError::MalformedPayload);
                    },
                };
                let ghost pre = ids@;
                ids.push(ItemId(v));
                proof {
                    lemma_id_chunk_step(payload@, pos as int, v);
                    lemma_ids_payload_push(pre, ItemId(v));
                    assert(ids@ == pre.push(ItemId(v)));
                    assert(spec_ids_payload(ids@) == payload@.subrange(4, pos + 32));
                }
                i = i + 1;
            }
            let rec = Record::ItemIdList(ids);
            proof {
                assert(payload@.skip(4 + 32 * n as int) =~= Seq::<u8>::empty());
                assert(valid_ids(payload@.skip(4)));
                assert(payload@ =~= payload@.subrange(0, 4) + payload@.subrange(
                    4,
                    payload@.len() as int,
                ));
                assert(payload@ == spec_payload(rec));
            }
            Ok(rec)
        
}

/// Decode a payload of the given kind; succeeds exactly on the
/// well-formed payloads, and the decoded record re-encodes to the very
/// same bytes.
#[verifier::rlimit(100)]
pub fn decode_record(kind: RecordKind, payload: &Vec<u8>) -> (res: Result<Record, DbError>)
    ensures
        res is Ok <==> valid_payload(kind, payload@),
        res matches Ok(v) ==> record_kind(v) == kind && encodable(v) && payload@ == spec_payload(
            v,
        ),
        res is Err ==> res matches Err(DbError::MalformedPayload),
{
    proof {
        crate::codec::lemma_pow16_32();
    }
    match kind {
        RecordKind::PlantTypes => match decode_tag(payload) {
            Some(t) => match crate::plants::PlantTypes::from_tag(t) {
                Some(v) => Ok(Record::PlantTypes(v)),
                None => Err(DbError::MalformedPayload),
            },
            None => Err(DbError::MalformedPayload),
        },
        RecordKind::EventsPlantTypes => match decode_tag(payload) {
            Some(t) => match crate::events::PlantTypes::from_tag(t) {
                Some(v) => Ok(Record::EventsPlantTypes(v)),
                None => Err(DbError::MalformedPayload),
            },
            None => Err(DbError::MalformedPayload),
        },
        RecordKind::Gender => match decode_tag(payload) {
            Some(t) => match crate::worms::Gender::from_tag(t) {
                Some(v) => Ok(Record::Gender(v)),
                None => Err(DbError::MalformedPayload),
            },
            None => Err(DbError::MalformedPayload),
        },
        RecordKind::WormType => match decode_tag(payload) {
            Some(t) => match crate::worms::WormType::from_tag(t) {
                Some(v) => Ok(Record::WormType(v)),
                None => Err(DbError::MalformedPayload),
            },
            None => Err(DbError::MalformedPayload),
        },
        RecordKind::WormStage => match decode_tag(payload) {
            Some(t) => match crate::worms::Stage::from_tag(t) {
                Some(v) => Ok(Record::WormStage(v)),
                None => Err(DbError::MalformedPayload),
            },
            None => Err(DbError::MalformedPayload),
        },
        RecordKind::Crop => match decode_tag(payload) {
            Some(t) => match crate::greenhouse::Crop::from_tag(t) {
                Some(v) => Ok(Record::Crop(v)),
                None => Err(DbError::MalformedPayload),
            },
            None => Err(DbError::MalformedPayload),
        },
        RecordKind::CrateSize => match decode_tag(payload) {
            Some(t) => match crate::greenhouse::CrateSize::from_tag(t) {
                Some(v) => Ok(Record::CrateSize(v)),
                None => Err(DbError::MalformedPayload),
            },
            None => Err(DbError::MalformedPayload),
        },
        RecordKind::Grade => match decode_tag(payload) {
            Some(t) => match crate::greenhouse::Grade::from_tag(t) {
                Some(v) => Ok(Record::Grade(v)),
                None => Err(DbError::MalformedPayload),
            },
            None => Err(DbError::MalformedPayload),
        },
        RecordKind::GhCrop => match decode_tag(payload) {
            Some(t) => match gh_crate::Crop::from_tag(t) {
                Some(v) => Ok(Record::GhCrop(v)),
                None => Err(DbError::MalformedPayload),
            },
            None => Err(DbError::MalformedPayload),
        },
        RecordKind::GhGrade => match decode_tag(payload) {
            Some(t) => match gh_crate::Grade::from_tag(t) {
                Some(v) => Ok(Record::GhGrade(v)),
                None => Err(DbError::MalformedPayload),
            },
            None => Err(DbError::MalformedPayload),
        },
        RecordKind::Plant => decode_plant(payload),
        RecordKind::EventsPlant => match decode_tag(payload) {
            Some(t) => match crate::events::PlantTypes::from_tag(t) {
                Some(v) => Ok(Record::EventsPlant(crate::events::Plant { plant_type: v })),
                None => Err(DbError::MalformedPayload),
            },
            None => Err(DbError::MalformedPayload),
        },
        RecordKind::SilkWorm => decode_silkworm(payload),
        RecordKind::Crate => decode_crate_rec(payload),
        RecordKind::ItemId => {
            if payload.len() != 32 {
                return Err(DbError::MalformedPayload);
            }
            match parse_hex(payload, 0, 32) {
                Some(v) => {
                    let rec = Record::ItemId(ItemId(v));
                    proof {
                        assert(payload@.subrange(0, 32) =~= payload@);
                    }
                    Ok(rec)
                },
                None => Err(DbError::MalformedPayload),
            }
        },
        RecordKind::GhCrate => decode_gh_crate_rec(payload),
        RecordKind::ItemIdList => decode_id_list(payload),
    }
}

/// Facts about a two-digit tag rendering, shared by the per-kind
/// proofs.
proof fn tag_payload_facts(t: u8)
    ensures
        hex_be(t as u128, 2).len() == 2,
        all_hex(hex_be(t as u128, 2)),
        hex_parse(hex_be(t as u128, 2)) == t,
{
    crate::codec::lemma_pow16_32();
    crate::codec::lemma_hex_be_shape(t as u128, 2);
    crate::codec::lemma_hex_roundtrip(t as u128, 2);
}

/// Facts about a 32-digit identifier rendering.
proof fn id_payload_facts(v: u128)
    ensures
        hex_be(v, 32).len() == 32,
        all_hex(hex_be(v, 32)),
        hex_parse(hex_be(v, 32)) == v,
{
    crate::codec::lemma_pow16_32();
    crate::codec::lemma_hex_be_shape(v, 32);
    crate::codec::lemma_hex_roundtrip(v, 32);
}


proof fn valid_plant_payload(p: crate::plants::Plant)
    ensures
        valid_payload(record_kind(Record::Plant(p)), spec_payload(Record::Plant(p))),
{
    let r = Record::Plant(p);
    crate::codec::lemma_pow16_32();

            let s = spec_payload(r);
            id_payload_facts(p.id.spec_val());
            id_payload_facts(p.location.spec_val());
            tag_payload_facts(crate::plants::spec_plant_types_tag(p.plant_type));
            tag_payload_facts(crate::plants::spec_plant_stage_tag(p.stage));
            assert(s.subrange(0, 32) =~= hex_be(p.id.spec_val(), 32));
            assert(s.subrange(32, 34) =~= hex_be(
                crate::plants::spec_plant_types_tag(p.plant_type) as u128,
                2,
            ));
            assert(s.subrange(34, 36) =~= hex_be(
                crate::plants::spec_plant_stage_tag(p.stage) as u128,
                2,
            ));
            assert(s.subrange(36, 68) =~= hex_be(p.location.spec_val(), 32));
            assert(all_hex(s));
        
}

proof fn valid_silkworm_payload(e: crate::events::silkworms::SilkWormEvents)
    requires
        encodable(Record::SilkWorm(e)),
    ensures
        valid_payload(record_kind(Record::SilkWorm(e)), spec_payload(Record::SilkWorm(e))),
{
    let r = Record::SilkWorm(e);
    crate::codec::lemma_pow16_32();

            let crate::events::silkworms::SilkWormEvents::Hatched(d) = e;
            let s = spec_payload(r);
            tag_payload_facts(0);
            crate::codec::lemma_hex_be_shape((d.spec_year() as u16) as u128, 4);
            crate::codec::lemma_hex_roundtrip((d.spec_year() as u16) as u128, 4);
            tag_payload_facts(d.spec_month());
            tag_payload_facts(d.spec_day());
            assert(s.subrange(0, 2) =~= hex_be(0, 2));
            assert(s.subrange(2, 6) =~= hex_be((d.spec_year() as u16) as u128, 4));
            assert(s.subrange(6, 8) =~= hex_be(d.spec_month() as u128, 2));
            assert(s.subrange(8, 10) =~= hex_be(d.spec_day() as u128, 2));
            assert(all_hex(s));
            assert(s.skip(2).subrange(0, 4) =~= s.subrange(2, 6));
            assert(s.skip(2).subrange(4, 6) =~= s.subrange(6, 8));
            assert(s.skip(2).subrange(6, 8) =~= s.subrange(8, 10));
            assert(all_hex(s.skip(2)));
            let yv = d.spec_year();
            assert(((yv as u16) as u128) as u16 == yv as u16) by (bit_vector);
            assert((yv as u16) as i16 == yv) by (bit_vector);
            assert(d.spec_month() < 256 && d.spec_day() < 256);
            d.lemma_wf(d);
        
}

proof fn valid_crate_payload(c: crate::greenhouse::Crate)
    ensures
        valid_payload(record_kind(Record::Crate(c)), spec_payload(Record::Crate(c))),
{
    let r = Record::Crate(c);
    crate::codec::lemma_pow16_32();

            let s = spec_payload(r);
            id_payload_facts(c.id.spec_val());
            tag_payload_facts(crate::greenhouse::spec_crop_tag(c.crop));
            tag_payload_facts(crate::greenhouse::spec_crate_size_tag(c.size));
            tag_payload_facts(crate::greenhouse::spec_grade_tag(c.grade));
            assert(s.subrange(0, 32) =~= hex_be(c.id.spec_val(), 32));
            assert(s.subrange(32, 34) =~= hex_be(
                crate::greenhouse::spec_crop_tag(c.crop) as u128,
                2,
            ));
            assert(s.subrange(34, 36) =~= hex_be(
                crate::greenhouse::spec_crate_size_tag(c.size) as u128,
                2,
            ));
            assert(s.subrange(36, 38) =~= hex_be(
                crate::greenhouse::spec_grade_tag(c.grade) as u128,
                2,
            ));
            assert(all_hex(s));
        
}

proof fn valid_gh_crate_payload(c: crate::greenhouse::gh_crate::Crate)
    requires
        c.fields@.len() <= 255,
    ensures
        valid_payload(record_kind(Record::GhCrate(c)), spec_payload(Record::GhCrate(c))),
{
    let r = Record::GhCrate(c);
    crate::codec::lemma_pow16_32();

            let s = spec_payload(r);
            let fs = c.fields@;
            id_payload_facts(c.id.spec_val());
            tag_payload_facts(gh_crate::spec_crop_tag(c.crop));
            tag_payload_facts(fs.len() as u8);
            lemma_fields_payload_shape(fs);
            lemma_fields_payload_valid(fs);
            assert(s.len() == 36 + 4 * fs.len());
            assert(s.subrange(0, 32) =~= hex_be(c.id.spec_val(), 32));
            assert(s.subrange(32, 34) =~= hex_be(gh_crate::spec_crop_tag(c.crop) as u128, 2));
            assert(s.subrange(34, 36) =~= hex_be(fs.len() as u128, 2));
            assert((fs.len() as u8) as u128 == fs.len() as u128);
            assert(s.subrange(0, 36) =~= s.subrange(0, 32) + s.subrange(32, 34) + s.subrange(
                34,
                36,
            ));
            assert(all_hex(s.subrange(0, 36)));
            assert(s.skip(36) =~= spec_fields_payload(fs));
        
}

proof fn valid_id_list_payload(v: Vec<ItemId>)
    requires
        v@.len() <= 65535,
    ensures
        valid_payload(record_kind(Record::ItemIdList(v)), spec_payload(Record::ItemIdList(v))),
{
    let r = Record::ItemIdList(v);
    crate::codec::lemma_pow16_32();

            let s = spec_payload(r);
            crate::codec::lemma_hex_be_shape(v@.len() as u128, 4);
            crate::codec::lemma_hex_roundtrip(v@.len() as u128, 4);
            lemma_ids_payload_shape(v@);
            lemma_ids_payload_valid(v@);
            assert(s.len() == 4 + 32 * v@.len());
            assert(s.subrange(0, 4) =~= hex_be(v@.len() as u128, 4));
            assert(all_hex(s.subrange(0, 4)));
            assert(s.skip(4) =~= spec_ids_payload(v@));
        
}

proof fn inj_plant_payload(p1: crate::plants::Plant, p2: crate::plants::Plant)
    requires
        encodable(Record::Plant(p1)),
        encodable(Record::Plant(p2)),
        spec_payload(Record::Plant(p1)) == spec_payload(Record::Plant(p2)),
    ensures
        record_eq(Record::Plant(p1), Record::Plant(p2)),
{
    crate::codec::lemma_pow16_32();

            let s1 = spec_payload(Record::Plant(p1));
            let s2 = spec_payload(Record::Plant(p2));
            id_payload_facts(p1.id.spec_val());
            id_payload_facts(p2.id.spec_val());
            id_payload_facts(p1.location.spec_val());
            id_payload_facts(p2.location.spec_val());
            tag_payload_facts(crate::plants::spec_plant_types_tag(p1.plant_type));
            tag_payload_facts(crate::plants::spec_plant_types_tag(p2.plant_type));
            tag_payload_facts(crate::plants::spec_plant_stage_tag(p1.stage));
            tag_payload_facts(crate::plants::spec_plant_stage_tag(p2.stage));
            assert(s1.subrange(0, 32) =~= hex_be(p1.id.spec_val(), 32));
            assert(s2.subrange(0, 32) =~= hex_be(p2.id.spec_val(), 32));
            assert(s1.subrange(32, 34) =~= hex_be(
                crate::plants::spec_plant_types_tag(p1.plant_type) as u128,
                2,
            ));
            assert(s2.subrange(32, 34) =~= hex_be(
                crate::plants::spec_plant_types_tag(p2.plant_type) as u128,
                2,
            ));
            assert(s1.subrange(34, 36) =~= hex_be(
                crate::plants::spec_plant_stage_tag(p1.stage) as u128,
                2,
            ));
            assert(s2.subrange(34, 36) =~= hex_be(
                crate::plants::spec_plant_stage_tag(p2.stage) as u128,
                2,
            ));
            assert(s1.subrange(36, 68) =~= hex_be(p1.location.spec_val(), 32));
            assert(s2.subrange(36, 68) =~= hex_be(p2.location.spec_val(), 32));
            lemma_hex_inj(p1.id.spec_val(), p2.id.spec_val(), 32);
            lemma_hex_inj(
                crate::plants::spec_plant_types_tag(p1.plant_type) as u128,
                crate::plants::spec_plant_types_tag(p2.plant_type) as u128,
                2,
            );
            lemma_hex_inj(
                crate::plants::spec_plant_stage_tag(p1.stage) as u128,
                crate::plants::spec_plant_stage_tag(p2.stage) as u128,
                2,
            );
            lemma_hex_inj(p1.location.spec_val(), p2.location.spec_val(), 32);
            assert(p1 == p2);
        
}

proof fn inj_silkworm_payload(e1: crate::events::silkworms::SilkWormEvents, e2: crate::events::silkworms::SilkWormEvents)
    requires
        encodable(Record::SilkWorm(e1)),
        encodable(Record::SilkWorm(e2)),
        spec_payload(Record::SilkWorm(e1)) == spec_payload(Record::SilkWorm(e2)),
    ensures
        record_eq(Record::SilkWorm(e1), Record::SilkWorm(e2)),
{
    crate::codec::lemma_pow16_32();

            let crate::events::silkworms::SilkWormEvents::Hatched(d1) = e1;
            let crate::events::silkworms::SilkWormEvents::Hatched(d2) = e2;
            let s1 = spec_payload(Record::SilkWorm(e1));
            let s2 = spec_payload(Record::SilkWorm(e2));
            crate::codec::lemma_hex_be_shape((d1.spec_year() as u16) as u128, 4);
            crate::codec::lemma_hex_be_shape((d2.spec_year() as u16) as u128, 4);
            crate::codec::lemma_hex_roundtrip((d1.spec_year() as u16) as u128, 4);
            crate::codec::lemma_hex_roundtrip((d2.spec_year() as u16) as u128, 4);
            tag_payload_facts(d1.spec_month());
            tag_payload_facts(d2.spec_month());
            tag_payload_facts(d1.spec_day());
            tag_payload_facts(d2.spec_day());
            assert(s1.subrange(2, 6) =~= hex_be((d1.spec_year() as u16) as u128, 4));
            assert(s2.subrange(2, 6) =~= hex_be((d2.spec_year() as u16) as u128, 4));
            assert(s1.subrange(6, 8) =~= hex_be(d1.spec_month() as u128, 2));
            assert(s2.subrange(6, 8) =~= hex_be(d2.spec_month() as u128, 2));
            assert(s1.subrange(8, 10) =~= hex_be(d1.spec_day() as u128, 2));
            assert(s2.subrange(8, 10) =~= hex_be(d2.spec_day() as u128, 2));
            lemma_hex_inj((d1.spec_year() as u16) as u128, (d2.spec_year() as u16) as u128, 4);
            lemma_hex_inj(d1.spec_month() as u128, d2.spec_month() as u128, 2);
            lemma_hex_inj(d1.spec_day() as u128, d2.spec_day() as u128, 2);
            let y1 = d1.spec_year();
            let y2 = d2.spec_year();
            assert(y1 as u16 == y2 as u16);
            assert(y1 as u16 == y2 as u16 ==> y1 == y2) by (bit_vector);
            d1.lemma_wf(d2);
            assert(d1 == d2);
        
}

proof fn inj_crate_payload(c1: crate::greenhouse::Crate, c2: crate::greenhouse::Crate)
    requires
        encodable(Record::Crate(c1)),
        encodable(Record::Crate(c2)),
        spec_payload(Record::Crate(c1)) == spec_payload(Record::Crate(c2)),
    ensures
        record_eq(Record::Crate(c1), Record::Crate(c2)),
{
    crate::codec::lemma_pow16_32();

            let s1 = spec_payload(Record::Crate(c1));
            let s2 = spec_payload(Record::Crate(c2));
            id_payload_facts(c1.id.spec_val());
            id_payload_facts(c2.id.spec_val());
            tag_payload_facts(crate::greenhouse::spec_crop_tag(c1.crop));
            tag_payload_facts(crate::greenhouse::spec_crop_tag(c2.crop));
            tag_payload_facts(crate::greenhouse::spec_crate_size_tag(c1.size));
            tag_payload_facts(crate::greenhouse::spec_crate_size_tag(c2.size));
            tag_payload_facts(crate::greenhouse::spec_grade_tag(c1.grade));
            tag_payload_facts(crate::greenhouse::spec_grade_tag(c2.grade));
            assert(s1.subrange(0, 32) =~= hex_be(c1.id.spec_val(), 32));
            assert(s2.subrange(0, 32) =~= hex_be(c2.id.spec_val(), 32));
            assert(s1.subrange(32, 34) =~= hex_be(
                crate::greenhouse::spec_crop_tag(c1.crop) as u128,
                2,
            ));
            assert(s2.subrange(32, 34) =~= hex_be(
                crate::greenhouse::spec_crop_tag(c2.crop) as u128,
                2,
            ));
            assert(s1.subrange(34, 36) =~= hex_be(
                crate::greenhouse::spec_crate_size_tag(c1.size) as u128,
                2,
            ));
            assert(s2.subrange(34, 36) =~= hex_be(
                crate::greenhouse::spec_crate_size_tag(c2.size) as u128,
                2,
            ));
            assert(s1.subrange(36, 38) =~= hex_be(
                crate::greenhouse::spec_grade_tag(c1.grade) as u128,
                2,
            ));
            assert(s2.subrange(36, 38) =~= hex_be(
                crate::greenhouse::spec_grade_tag(c2.grade) as u128,
                2,
            ));
            lemma_hex_inj(c1.id.spec_val(), c2.id.spec_val(), 32);
            lemma_hex_inj(
                crate::greenhouse::spec_crop_tag(c1.crop) as u128,
                crate::greenhouse::spec_crop_tag(c2.crop) as u128,
                2,
            );
            lemma_hex_inj(
                crate::greenhouse::spec_crate_size_tag(c1.size) as u128,
                crate::greenhouse::spec_crate_size_tag(c2.size) as u128,
                2,
            );
            lemma_hex_inj(
                crate::greenhouse::spec_grade_tag(c1.grade) as u128,
                crate::greenhouse::spec_grade_tag(c2.grade) as u128,
                2,
            );
            assert(c1 == c2);
        
}

proof fn inj_gh_crate_payload(c1: crate::greenhouse::gh_crate::Crate, c2: crate::greenhouse::gh_crate::Crate)
    requires
        encodable(Record::GhCrate(c1)),
        encodable(Record::GhCrate(c2)),
        spec_payload(Record::GhCrate(c1)) == spec_payload(Record::GhCrate(c2)),
    ensures
        record_eq(Record::GhCrate(c1), Record::GhCrate(c2)),
{
    crate::codec::lemma_pow16_32();

            let s1 = spec_payload(Record::GhCrate(c1));
            let s2 = spec_payload(Record::GhCrate(c2));
            let f1 = c1.fields@;
            let f2 = c2.fields@;
            id_payload_facts(c1.id.spec_val());
            id_payload_facts(c2.id.spec_val());
            tag_payload_facts(gh_crate::spec_crop_tag(c1.crop));
            tag_payload_facts(gh_crate::spec_crop_tag(c2.crop));
            tag_payload_facts(f1.len() as u8);
            tag_payload_facts(f2.len() as u8);
            lemma_fields_payload_shape(f1);
            lemma_fields_payload_shape(f2);
            assert(s1.len() == 36 + 4 * f1.len());
            assert(s2.len() == 36 + 4 * f2.len());
            assert(f1.len() == f2.len());
            assert(s1.subrange(0, 32) =~= hex_be(c1.id.spec_val(), 32));
            assert(s2.subrange(0, 32) =~= hex_be(c2.id.spec_val(), 32));
            assert(s1.subrange(32, 34) =~= hex_be(gh_crate::spec_crop_tag(c1.crop) as u128, 2));
            assert(s2.subrange(32, 34) =~= hex_be(gh_crate::spec_crop_tag(c2.crop) as u128, 2));
            assert(s1.skip(36) =~= spec_fields_payload(f1));
            assert(s2.skip(36) =~= spec_fields_payload(f2));
            lemma_hex_inj(c1.id.spec_val(), c2.id.spec_val(), 32);
            lemma_hex_inj(
                gh_crate::spec_crop_tag(c1.crop) as u128,
                gh_crate::spec_crop_tag(c2.crop) as u128,
                2,
            );
            lemma_fields_payload_inj(f1, f2);
        
}

proof fn inj_id_list_payload(v1: Vec<ItemId>, v2: Vec<ItemId>)
    requires
        encodable(Record::ItemIdList(v1)),
        encodable(Record::ItemIdList(v2)),
        spec_payload(Record::ItemIdList(v1)) == spec_payload(Record::ItemIdList(v2)),
    ensures
        record_eq(Record::ItemIdList(v1), Record::ItemIdList(v2)),
{
    crate::codec::lemma_pow16_32();

            let s1 = spec_payload(Record::ItemIdList(v1));
            let s2 = spec_payload(Record::ItemIdList(v2));
            crate::codec::lemma_hex_be_shape(v1@.len() as u128, 4);
            crate::codec::lemma_hex_be_shape(v2@.len() as u128, 4);
            lemma_ids_payload_shape(v1@);
            lemma_ids_payload_shape(v2@);
            assert(s1.len() == 4 + 32 * v1@.len());
            assert(s2.len() == 4 + 32 * v2@.len());
            assert(v1@.len() == v2@.len());
            assert(s1.skip(4) =~= spec_ids_payload(v1@));
            assert(s2.skip(4) =~= spec_ids_payload(v2@));
            lemma_ids_payload_inj(v1@, v2@);
        
}

/// Every record that fits the format encodes to a well-formed payload
/// of its own kind: reading back what was written always succeeds.
pub proof fn lemma_payload_valid(r: Record)
    requires
        encodable(r),
    ensures
        valid_payload(record_kind(r), spec_payload(r)),
{
    crate::codec::lemma_pow16_32();
    match r {
        Record::PlantTypes(v) => {
            tag_payload_facts(crate::plants::spec_plant_types_tag(v));
        },
        Record::EventsPlantTypes(v) => {
            tag_payload_facts(crate::events::spec_plant_types_tag(v));
        },
        Record::Gender(v) => {
            tag_payload_facts(crate::worms::spec_gender_tag(v));
        },
        Record::WormType(v) => {
            tag_payload_facts(crate::worms::spec_worm_type_tag(v));
        },
        Record::WormStage(v) => {
            tag_payload_facts(crate::worms::spec_worm_stage_tag(v));
        },
        Record::Crop(v) => {
            tag_payload_facts(crate::greenhouse::spec_crop_tag(v));
        },
        Record::CrateSize(v) => {
            tag_payload_facts(crate::greenhouse::spec_crate_size_tag(v));
        },
        Record::Grade(v) => {
            tag_payload_facts(crate::greenhouse::spec_grade_tag(v));
        },
        Record::GhCrop(v) => {
            tag_payload_facts(gh_crate::spec_crop_tag(v));
        },
        Record::GhGrade(v) => {
            tag_payload_facts(gh_crate::spec_grade_tag(v));
        },
        Record::Plant(p) => valid_plant_payload(p),
        Record::EventsPlant(p) => {
            tag_payload_facts(crate::events::spec_plant_types_tag(p.plant_type));
        },
        Record::SilkWorm(e) => valid_silkworm_payload(e),
        Record::Crate(c) => valid_crate_payload(c),
        Record::GhCrate(c) => valid_gh_crate_payload(c),
        Record::ItemId(id) => {
            id_payload_facts(id.spec_val());
        },
        Record::ItemIdList(v) => valid_id_list_payload(v),
    }
}

/// Two records carry the same data: plain equality, except that the
/// list-holding records are compared by their contents, since two
/// separately allocated lists with equal contents are distinct values.
pub open spec fn record_eq(a: Record, b: Record) -> bool {
    match (a, b) {
        (Record::ItemIdList(v1), Record::ItemIdList(v2)) => v1@ == v2@,
        (Record::GhCrate(c1), Record::GhCrate(c2)) => c1.id == c2.id && c1.crop == c2.crop
            && c1.fields@ == c2.fields@,
        _ => a == b,
    }
}

/// The stored payload determines the record: two records of one kind
/// with the same payload carry the same data.  Together with the
/// distinctness of the kind names this makes reading back a stored
/// record exact.
pub proof fn lemma_payload_injective(a: Record, b: Record)
    requires
        record_kind(a) == record_kind(b),
        encodable(a),
        encodable(b),
        spec_payload(a) == spec_payload(b),
    ensures
        record_eq(a, b),
{
    crate::codec::lemma_pow16_32();
    match (a, b) {
        (Record::PlantTypes(v1), Record::PlantTypes(v2)) => {
            lemma_hex_inj(crate::plants::spec_plant_types_tag(v1) as u128, crate::plants::spec_plant_types_tag(v2) as u128, 2);
            assert(v1 == v2);
        },
        (Record::EventsPlantTypes(v1), Record::EventsPlantTypes(v2)) => {
            lemma_hex_inj(crate::events::spec_plant_types_tag(v1) as u128, crate::events::spec_plant_types_tag(v2) as u128, 2);
            assert(v1 == v2);
        },
        (Record::Gender(v1), Record::Gender(v2)) => {
            lemma_hex_inj(crate::worms::spec_gender_tag(v1) as u128, crate::worms::spec_gender_tag(v2) as u128, 2);
            assert(v1 == v2);
        },
        (Record::WormType(v1), Record::WormType(v2)) => {
            lemma_hex_inj(crate::worms::spec_worm_type_tag(v1) as u128, crate::worms::spec_worm_type_tag(v2) as u128, 2);
            assert(v1 == v2);
        },
        (Record::WormStage(v1), Record::WormStage(v2)) => {
            lemma_hex_inj(crate::worms::spec_worm_stage_tag(v1) as u128, crate::worms::spec_worm_stage_tag(v2) as u128, 2);
            assert(v1 == v2);
        },
        (Record::Crop(v1), Record::Crop(v2)) => {
            lemma_hex_inj(crate::greenhouse::spec_crop_tag(v1) as u128, crate::greenhouse::spec_crop_tag(v2) as u128, 2);
            assert(v1 == v2);
        },
        (Record::CrateSize(v1), Record::CrateSize(v2)) => {
            lemma_hex_inj(crate::greenhouse::spec_crate_size_tag(v1) as u128, crate::greenhouse::spec_crate_size_tag(v2) as u128, 2);
            assert(v1 == v2);
        },
        (Record::Grade(v1), Record::Grade(v2)) => {
            lemma_hex_inj(crate::greenhouse::spec_grade_tag(v1) as u128, crate::greenhouse::spec_grade_tag(v2) as u128, 2);
            assert(v1 == v2);
        },
        (Record::GhCrop(v1), Record::GhCrop(v2)) => {
            lemma_hex_inj(gh_crate::spec_crop_tag(v1) as u128, gh_crate::spec_crop_tag(v2) as u128, 2);
            assert(v1 == v2);
        },
        (Record::GhGrade(v1), Record::GhGrade(v2)) => {
            lemma_hex_inj(gh_crate::spec_grade_tag(v1) as u128, gh_crate::spec_grade_tag(v2) as u128, 2);
            assert(v1 == v2);
        },
        (Record::Plant(p1), Record::Plant(p2)) => inj_plant_payload(p1, p2),
        (Record::EventsPlant(p1), Record::EventsPlant(p2)) => {
            lemma_hex_inj(
                crate::events::spec_plant_types_tag(p1.plant_type) as u128,
                crate::events::spec_plant_types_tag(p2.plant_type) as u128,
                2,
            );
            assert(p1 == p2);
        },
        (Record::SilkWorm(e1), Record::SilkWorm(e2)) => inj_silkworm_payload(e1, e2),
        (Record::Crate(c1), Record::Crate(c2)) => inj_crate_payload(c1, c2),
        (Record::GhCrate(c1), Record::GhCrate(c2)) => inj_gh_crate_payload(c1, c2),
        (Record::ItemId(i1), Record::ItemId(i2)) => {
            lemma_hex_inj(i1.spec_val(), i2.spec_val(), 32);
            assert(i1 == i2);
        },
        (Record::ItemIdList(v1), Record::ItemIdList(v2)) => inj_id_list_payload(v1, v2),
        _ => {
            assert(false);
        },
    }
}

/// A sequence of plain ASCII bytes is valid UTF-8.
pub proof fn lemma_ascii_valid_utf8(bytes: Seq<u8>)
    requires
        forall|i: int| 0 <= i < bytes.len() ==> #[trigger] bytes[i] < 0x80,
    ensures
        vstd::utf8::valid_utf8(bytes),
    decreases bytes.len(),
{
    if bytes.len() > 0 {
        let b = bytes[0];
        assert(b >> 7 == 0) by (bit_vector)
            requires
                b < 0x80,
        ;
        assert(vstd::utf8::is_leading_byte_width_1(b));
        assert(vstd::utf8::valid_first_scalar(bytes));
        assert(vstd::utf8::length_of_first_scalar(bytes) == 1);
        assert(vstd::utf8::pop_first_scalar(bytes) =~= bytes.skip(1));
        lemma_ascii_valid_utf8(bytes.skip(1));
    }
}

/// Every byte of a well-formed field list body is a hexadecimal digit.
proof fn lemma_valid_fields_hex(s: Seq<u8>)
    requires
        valid_fields(s),
    ensures
        all_hex(s),
    decreases s.len(),
{
    if s.len() > 0 {
        lemma_valid_fields_hex(s.skip(4));
        assert forall|i: int| 0 <= i < s.len() implies is_hex_digit(#[trigger] s[i]) by {
            if i < 4 {
                assert(s.subrange(0, 4)[i] == s[i]);
            } else {
                assert(s.skip(4)[i - 4] == s[i]);
            }
        }
    }
}

/// Every byte of a well-formed identifier list body is a hexadecimal
/// digit.
proof fn lemma_valid_ids_hex(s: Seq<u8>)
    requires
        valid_ids(s),
    ensures
        all_hex(s),
    decreases s.len(),
{
    if s.len() > 0 {
        lemma_valid_ids_hex(s.skip(32));
        assert forall|i: int| 0 <= i < s.len() implies is_hex_digit(#[trigger] s[i]) by {
            if i < 32 {
                assert(s.subrange(0, 32)[i] == s[i]);
            } else {
                assert(s.skip(32)[i - 32] == s[i]);
            }
        }
    }
}

/// A well-formed payload is hexadecimal text throughout, hence valid
/// UTF-8.
pub proof fn lemma_valid_payload_ascii(kind: RecordKind, s: Seq<u8>)
    requires
        valid_payload(kind, s),
    ensures
        vstd::utf8::valid_utf8(s),
{
    assert forall|i: int| 0 <= i < s.len() implies #[trigger] s[i] < 0x80 by {
        match kind {
            RecordKind::GhCrate => {
                lemma_valid_fields_hex(s.skip(36));
                if i < 36 {
                    assert(s.subrange(0, 36)[i] == s[i]);
                    assert(is_hex_digit(s[i]));
                } else {
                    assert(s.skip(36)[i - 36] == s[i]);
                    assert(is_hex_digit(s[i]));
                }
            },
            RecordKind::ItemIdList => {
                lemma_valid_ids_hex(s.skip(4));
                if i < 4 {
                    assert(s.subrange(0, 4)[i] == s[i]);
                    assert(is_hex_digit(s[i]));
                } else {
                    assert(s.skip(4)[i - 4] == s[i]);
                    assert(is_hex_digit(s[i]));
                }
            },
            _ => {
                assert(is_hex_digit(s[i]));
            },
        }
    }
    lemma_ascii_valid_utf8(s);
}

/// The payload of any record that fits the format is valid UTF-8.
pub proof fn lemma_payload_ascii(r: Record)
    requires
        encodable(r),
    ensures
        vstd::utf8::valid_utf8(spec_payload(r)),
{
    lemma_payload_valid(r);
    lemma_valid_payload_ascii(record_kind(r), spec_payload(r));
}

} // verus!






