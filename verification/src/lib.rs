//! An embedded, runtime-typed record store.
//!
//! Records live in three ordered key-value partitions: a shared `names`
//! partition mapping a key to the stored type's name, an `objects`
//! partition keyed by random 128-bit identifiers, and an append-only
//! `log` partition keyed by a composite date + sequence key.  A type
//! registry maps stable type names to encode/decode capabilities so the
//! store can accept and return heterogeneous records through one narrow
//! interface.

pub mod codec;
pub mod date;
pub mod events;
pub mod greenhouse;
pub mod items;
pub mod plants;
pub mod registry;
pub mod store;
pub mod worms;

use vstd::prelude::*;

verus! {

/// Everything that can go wrong inside the store; all of it is
/// returned to the caller, none of it panics.
#[derive(Debug)]
pub enum DbError {
    /// The value's type name has no registry entry.
    TypeNotRegistered(String),
    /// The type is registered, but without a serialize capability.
    NoSerializeCapability(String),
    /// The type is registered, but without a deserialize capability.
    NoDeserializeCapability(String),
    /// No record is stored under the given key.
    NoSuchEntry,
    /// The stored type differs from the requested one; carries the
    /// expected name and the stored record as an opaque value.
    TypeMismatch(String, ItemData),
    /// A stored payload does not decode.
    MalformedPayload,
    /// The underlying key-value store failed.
    StoreIoError,
    /// A stored byte string is not valid text.
    EncodingError,
}

/// The registrations a standard engine starts with.
pub open spec fn spec_standard_registry() -> Seq<(registry::RecordKind, bool, bool)> {
    Seq::<(registry::RecordKind, bool, bool)>::empty().push(
        (registry::RecordKind::ItemId, true, true),
    ).push((registry::RecordKind::ItemIdList, true, true)).push(
        (registry::RecordKind::Gender, true, true),
    ).push((registry::RecordKind::WormType, true, true)).push(
        (registry::RecordKind::WormStage, true, true),
    ).push((registry::RecordKind::Crop, true, true)).push(
        (registry::RecordKind::Crate, true, true),
    ).push((registry::RecordKind::CrateSize, true, true)).push(
        (registry::RecordKind::Grade, true, true),
    )
}

/// The registry every storable record type of this crate is entered
/// in, with both capabilities; built once and handed to the engine at
/// construction.
pub fn type_registry() -> (r: registry::TypeRegistry)
    ensures
        r@ == spec_standard_registry(),
{
    let mut reg = registry::TypeRegistry::new();
    reg.register(registry::RecordKind::ItemId);
    reg.register(registry::RecordKind::ItemIdList);
    worms::register_types(&mut reg);
    greenhouse::register_types(&mut reg);
    reg
}

/// A free-form note, stored beside its metadata.
#[derive(Debug)]
pub struct Note {
    pub metadata: Metadata,
    pub content: String,
}

/// What identifies a note: a title and the record holding its body.
#[derive(Debug)]
pub struct Metadata {
    pub tital: String,
    pub content_id: ItemId,
}

} // verus!

pub use date::Date;
pub use items::{EventData, EventId, Item, ItemData, ItemId};
pub use store::Database;
