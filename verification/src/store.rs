//! The storage engine: three ordered key-value partitions over an
//! embedded store, and the per-date atomic sequence allocator.
//!
//! Each partition is modelled as a map from byte keys to byte values.
//! All exclusion is delegated to the store's per-key atomic update;
//! the engine itself holds no lock.

use crate::codec::{be_bytes, be_val, pow256};
use crate::date::Date;
use crate::items::{EventData, EventId, ItemData, ItemId};
use crate::registry::{
    encode_record, record_kind, spec_kind_name, spec_lookup, spec_payload, Record, RecordKind,
    TypeRegistry,
};
use crate::DbError;
use vstd::prelude::*;
use vstd::string::*;

verus! {

broadcast use vstd::seq::group_seq_axioms;

/// The raw error type of the underlying store.
#[verifier::external_type_specification]
#[verifier::external_body]
pub struct ExSledError(sled::Error);

/// One ordered key-value partition of the store.  The handle is kept
/// opaque: the store mutates shared state behind it, so its contents
/// are modelled by the uninterpreted view below and every wrapper
/// takes the partition exclusively.
#[verifier::external_body]
pub struct Partition {
    tree: sled::Tree,
}

/// What a partition holds: a map from byte keys to byte values.
pub uninterp spec fn partition_view(p: Partition) -> Map<Seq<u8>, Seq<u8>>;

impl View for Partition {
    type V = Map<Seq<u8>, Seq<u8>>;

    open spec fn view(&self) -> Map<Seq<u8>, Seq<u8>> {
        partition_view(*self)
    }
}

/// The counter value held in a byte string: an 8-byte big-endian
/// integer; anything else counts as zero.
pub open spec fn bytes_counter(b: Seq<u8>) -> u64 {
    if b.len() == 8 {
        be_val(b) as u64
    } else {
        0
    }
}

/// The counter stored under a key; an absent key counts as zero.
pub open spec fn counter_of(m: Map<Seq<u8>, Seq<u8>>, k: Seq<u8>) -> u64 {
    if m.contains_key(k) {
        bytes_counter(m[k])
    } else {
        0
    }
}

/// The next counter value: one more, wrapping at the machine limit.
pub open spec fn wrap_inc(c: u64) -> u64 {
    if c == u64::MAX {
        0
    } else {
        (c + 1) as u64
    }
}

/// The counter value in an optional raw byte slice.
pub open spec fn opt_counter(cur: Option<&[u8]>) -> u64 {
    match cur {
        Some(b) => bytes_counter(b@),
        None => 0,
    }
}

/// Read an 8-byte big-endian integer.
fn be64_of(b: &[u8]) -> (r: u64)
    requires
        b@.len() == 8,
    ensures
        r as u128 == be_val(b@),
{
    proof {
        crate::codec::lemma_pow256_16();
        crate::codec::lemma_be_canonical(b@);
    }
    let mut acc: u64 = 0;
    let mut i: usize = 0;
    while i < 8
        invariant
            i <= 8,
            b@.len() == 8,
            acc as u128 == be_val(b@.subrange(0, i as int)),
            (acc as u128) < pow256(i as nat),
        decreases 8 - i,
    {
        proof {
            crate::codec::lemma_pow256_16();
            crate::codec::lemma_pow256_mono((i + 1) as nat, 8);
            assert(pow256((i + 1) as nat) == 256 * pow256(i as nat));
            let sub1 = b@.subrange(0, i + 1);
            assert(sub1.drop_last() =~= b@.subrange(0, i as int));
            assert(sub1.last() == b@[i as int]);
        }
        acc = acc * 256 + (b[i] as u64);
        i = i + 1;
    }
    proof {
        assert(b@.subrange(0, 8) =~= b@);
    }
    acc
}

/// The update handed to the store's atomic read-modify-write: read the
/// current counter, add one (wrapping), write it back as eight
/// big-endian bytes.  Always returns a value.
pub fn bump_counter(cur: Option<&[u8]>) -> (r: Option<Vec<u8>>)
    ensures
        r matches Some(v) && v@ == be_bytes(wrap_inc(opt_counter(cur)) as u128, 8),
{
    let c: u64 = match cur {
        Some(b) => {
            if b.len() == 8 {
                be64_of(b)
            } else {
                0
            }
        },
        None => 0,
    };
    proof {
        crate::codec::lemma_pow256_16();
        match cur {
            Some(b) => {
                if b@.len() == 8 {
                    crate::codec::lemma_be_canonical(b@);
                }
            },
            None => {},
        }
    }
    let next: u64 = if c == u64::MAX {
        0
    } else {
        c + 1
    };
    let mut out: Vec<u8> = Vec::new();
    crate::codec::push_be(&mut out, next as u128, 8);
    proof {
        assert(out@ =~= be_bytes(wrap_inc(opt_counter(cur)) as u128, 8));
    }
    Some(out)
}

impl Partition {
    /// Relies on `sled::Tree::get`: the value stored under the key, if
    /// any.
    #[verifier::external_body]
    fn get(&self, key: &Vec<u8>) -> (r: Result<Option<Vec<u8>>, sled::Error>)
        ensures
            match r {
                Ok(Some(v)) => partition_view(*self).contains_key(key@) && v@ == partition_view(
                    *self,
                )[key@],
                Ok(None) => !partition_view(*self).contains_key(key@),
                Err(_) => true,
            },
    {
        match self.tree.get(key.as_slice()) {
            Ok(Some(iv)) => Ok(Some(iv.to_vec())),
            Ok(None) => Ok(None),
            Err(e) => Err(e),
        }
    }

    /// Relies on `sled::Tree::insert`: on success the key maps to the
    /// value.
    #[verifier::external_body]
    fn insert(&mut self, key: &Vec<u8>, val: &Vec<u8>) -> (r: Result<(), sled::Error>)
        ensures
            r is Ok ==> partition_view(*final (self)) == partition_view(*old(self)).insert(
                key@,
                val@,
            ),
    {
        match self.tree.insert(key.as_slice(), val.clone()) {
            Ok(_) => Ok(()),
            Err(e) => Err(e),
        }
    }

    /// Relies on `sled::Tree::remove`: on success the key is absent.
    #[verifier::external_body]
    fn remove(&mut self, key: &Vec<u8>) -> (r: Result<(), sled::Error>)
        ensures
            r is Ok ==> partition_view(*final (self)) == partition_view(*old(self)).remove(key@),
    {
        match self.tree.remove(key.as_slice()) {
            Ok(_) => Ok(()),
            Err(e) => Err(e),
        }
    }

    /// Relies on `sled::Tree::update_and_fetch`: an atomic per-key
    /// read-modify-write, retried by the store until uncontended,
    /// which returns the value the closure produced.  The closure here
    /// is the verified `bump_counter`, which always returns a value,
    /// so the result of a successful update is never empty — the store
    /// returning none there would be a broken store, answered by an
    /// abort rather than a wrong value.
    #[verifier::external_body]
    fn fetch_increment(&mut self, key: &Vec<u8>) -> (r: Result<Vec<u8>, sled::Error>)
        ensures
            r matches Ok(v) ==> {
                let c = wrap_inc(counter_of(partition_view(*old(self)), key@));
                &&& v@ == be_bytes(c as u128, 8)
                &&& partition_view(*final (self)) == partition_view(*old(self)).insert(
                    key@,
                    be_bytes(c as u128, 8),
                )
            },
    {
        match self.tree.update_and_fetch(key.as_slice(), bump_counter) {
            Ok(opt) => Ok(opt.expect("the update closure always returns a value").to_vec()),
            Err(e) => Err(e),
        }
    }
}

/// Relies on `sled::open` and `sled::Db::open_tree`: opens (or
/// creates) the store at `path` and hands back its three partitions —
/// the default keyspace for objects and counters, the `types` tree for
/// names, and the `events` tree for the log.  Their contents are
/// whatever the files hold, so nothing is promised of them.
#[verifier::external_body]
fn open_disk_partitions(path: &str) -> (r: Result<(Partition, Partition, Partition), sled::Error>)
{
    let db = sled::open(path)?;
    let names = db.open_tree("types")?;
    let log = db.open_tree("events")?;
    let objects: sled::Tree = (*db).clone();
    Ok((Partition { tree: objects }, Partition { tree: names }, Partition { tree: log }))
}

/// Relies on `sled::Config::{new, temporary, open}` and
/// `Db::open_tree`: a temporary store lives at a freshly salted path,
/// so a newly opened one is empty, and it is removed again on drop.
#[verifier::external_body]
fn open_temporary_partitions() -> (r: Result<(Partition, Partition, Partition), sled::Error>)
    ensures
        match r {
            Ok(p) => partition_view(p.0) == Map::<Seq<u8>, Seq<u8>>::empty() && partition_view(
                p.1,
            ) == Map::<Seq<u8>, Seq<u8>>::empty() && partition_view(p.2) == Map::<
                Seq<u8>,
                Seq<u8>,
            >::empty(),
            Err(_) => true,
        },
{
    let db = sled::Config::new().temporary(true).open()?;
    let names = db.open_tree("types")?;
    let log = db.open_tree("events")?;
    let objects: sled::Tree = (*db).clone();
    Ok((Partition { tree: objects }, Partition { tree: names }, Partition { tree: log }))
}

/// Relies on `String::from_utf8`: succeeds exactly on valid UTF-8 and
/// preserves the bytes.
#[verifier::external_body]
fn bytes_to_string(v: Vec<u8>) -> (r: Result<String, DbError>)
    ensures
        r is Ok <==> vstd::utf8::valid_utf8(v@),
        r matches Ok(s) ==> vstd::utf8::encode_utf8(s@) == v@,
        r is Err ==> r matches Err(DbError::EncodingError),
{
    match String::from_utf8(v) {
        Ok(s) => Ok(s),
        Err(_) => Err(DbError::EncodingError),
    }
}

/// The stable type name of a kind, as the bytes stored in the names
/// partition.
pub open spec fn spec_kind_name_bytes(k: RecordKind) -> Seq<u8> {
    vstd::utf8::encode_utf8(spec_kind_name(k))
}

/// Distinct kinds store distinct name bytes.
pub proof fn lemma_kind_name_bytes_injective(k1: RecordKind, k2: RecordKind)
    requires
        spec_kind_name_bytes(k1) == spec_kind_name_bytes(k2),
    ensures
        k1 == k2,
{
    vstd::utf8::encode_utf8_decode_utf8(spec_kind_name(k1));
    vstd::utf8::encode_utf8_decode_utf8(spec_kind_name(k2));
    crate::registry::lemma_kind_names_injective(k1, k2);
}

/// The byte key of an object identifier: 16 big-endian bytes.
pub open spec fn spec_item_key(id: ItemId) -> Seq<u8> {
    be_bytes(id.spec_val(), 16)
}

/// The byte key of a log entry: 8 big-endian bytes.
pub open spec fn spec_event_key(k: EventId) -> Seq<u8> {
    be_bytes(k.spec_key() as u128, 8)
}

/// The storage engine: the type registry beside the three partitions.
/// The default keyspace holds objects and the per-date counters, the
/// `types` tree maps every key to its record's type name, and the
/// `events` tree is the append-only log.
pub struct Database {
    type_registry: TypeRegistry,
    db: Partition,
    type_tree: Partition,
    events: Partition,
}

impl Database {
    /// The names partition: key to stored type name.
    pub closed spec fn names(&self) -> Map<Seq<u8>, Seq<u8>> {
        self.type_tree@
    }

    /// The objects partition: object keys to payloads, and bare-date
    /// keys to counters.
    pub closed spec fn objects(&self) -> Map<Seq<u8>, Seq<u8>> {
        self.db@
    }

    /// The log partition: qualified event keys to payloads.
    pub closed spec fn log(&self) -> Map<Seq<u8>, Seq<u8>> {
        self.events@
    }

    /// The registry handed in at construction.
    pub closed spec fn registry(&self) -> Seq<(RecordKind, bool, bool)> {
        self.type_registry@
    }

    /// Open the store at `path` with the standard registry; the
    /// partitions hold whatever the files hold.
    pub fn new(path: &str) -> (r: Result<Database, DbError>)
        ensures
            r matches Ok(d) ==> d.registry() == crate::spec_standard_registry(),
            r is Err ==> r matches Err(DbError::StoreIoError),
    {
        match open_disk_partitions(path) {
            Ok((objects, names, log)) => Ok(
                Database {
                    type_registry: crate::type_registry(),
                    db: objects,
                    type_tree: names,
                    events: log,
                },
            ),
            Err(_) => Err(DbError::StoreIoError),
        }
    }

    /// Open a fresh, empty, temporary store around the given registry;
    /// it is deleted again when the engine is dropped.
    pub fn temporary(reg: TypeRegistry) -> (r: Result<Database, DbError>)
        ensures
            r matches Ok(d) ==> d.registry() == reg@ && d.names() == Map::<Seq<u8>, Seq<u8>>::empty()
                && d.objects() == Map::<Seq<u8>, Seq<u8>>::empty() && d.log() == Map::<
                Seq<u8>,
                Seq<u8>,
            >::empty(),
            r is Err ==> r matches Err(DbError::StoreIoError),
    {
        match open_temporary_partitions() {
            Ok((objects, names, log)) => Ok(
                Database { type_registry: reg, db: objects, type_tree: names, events: log },
            ),
            Err(_) => Err(DbError::StoreIoError),
        }
    }

    /// Allocate the next sequence number for `date` and return the
    /// qualified key carrying it: an atomic read-increment-write
    /// against the bare-date key in the objects partition.  Sequence
    /// numbers for one date are handed out strictly increasing and
    /// gap-free; dates never contend with each other, since each has
    /// its own counter key.
    pub fn get_next_key(&mut self, date: Date) -> (r: Result<EventId, DbError>)
        ensures
            r matches Ok(k) ==> {
                let bare = ((date.spec_bits() as u64) << 32) as u64;
                let kb = be_bytes(bare as u128, 8);
                let c = wrap_inc(counter_of(old(self).objects(), kb));
                &&& final (self).objects() == old(self).objects().insert(
                    kb,
                    be_bytes(c as u128, 8),
                )
                &&& k.spec_key() == (bare & 0xffff_ffff_8000_0000) | (c & 0x7fff_ffff)
                &&& final (self).names() == old(self).names()
                &&& final (self).log() == old(self).log()
                &&& final (self).registry() == old(self).registry()
            },
            r is Err ==> r matches Err(DbError::StoreIoError),
            final (self).registry() == old(self).registry(),
    {
        let key = EventId::date_key(date);
        let kb = key.to_bytes();
        match self.db.fetch_increment(&kb) {
            Ok(counter_bytes) => {
                proof {
                    crate::codec::lemma_pow256_16();
                    crate::codec::lemma_be_roundtrip(
                        wrap_inc(counter_of(old(self).objects(), kb@)) as u128,
                        8,
                    );
                    crate::codec::lemma_be_bytes_shape(
                        wrap_inc(counter_of(old(self).objects(), kb@)) as u128,
                        8,
                    );
                }
                let c: u64 = be64_of(counter_bytes.as_slice());
                Ok(key.with_id(c))
            },
            Err(_) => Err(DbError::StoreIoError),
        }
    }

    /// Append an already-serialized log entry: allocate the next key
    /// for its date, then record its type name and payload under that
    /// key.
    pub fn add_event(&mut self, event: &EventData) -> (r: Result<EventId, DbError>)
        ensures
            r matches Ok(k) ==> {
                let bare = ((event.date.spec_bits() as u64) << 32) as u64;
                let bb = be_bytes(bare as u128, 8);
                let c = wrap_inc(counter_of(old(self).objects(), bb));
                let kb = spec_event_key(k);
                &&& k.spec_key() == (bare & 0xffff_ffff_8000_0000) | (c & 0x7fff_ffff)
                &&& final (self).objects() == old(self).objects().insert(
                    bb,
                    be_bytes(c as u128, 8),
                )
                &&& final (self).names() == old(self).names().insert(
                    kb,
                    vstd::utf8::encode_utf8(event.name@),
                )
                &&& final (self).log() == old(self).log().insert(
                    kb,
                    vstd::utf8::encode_utf8(event.data@),
                )
            },
            r is Err ==> r matches Err(DbError::StoreIoError),
            final (self).registry() == old(self).registry(),
    {
        let key = match self.get_next_key(event.date) {
            Ok(k) => k,
            Err(e) => {
                return Err(e);
            },
        };
        let kb = key.to_bytes();
        let name_bytes = event.name.as_str().as_bytes_vec();
        let data_bytes = event.data.as_str().as_bytes_vec();
        match self.type_tree.insert(&kb, &name_bytes) {
            Ok(()) => {},
            Err(_) => {
                return Err(DbError::StoreIoError);
            },
        }
        match self.events.insert(&kb, &data_bytes) {
            Ok(()) => {},
            Err(_) => {
                return Err(DbError::StoreIoError);
            },
        }
        Ok(key)
    }
}

impl Database {
    /// Register the record kinds, serialize them through the registry,
    /// and append under a freshly allocated key: type name into the
    /// names partition, payload into the log.
    pub fn add_event_obj(&mut self, event: &Record, date: Date) -> (r: Result<EventId, DbError>)
        ensures
            match r {
                Ok(k) => {
                    let bare = ((date.spec_bits() as u64) << 32) as u64;
                    let bb = be_bytes(bare as u128, 8);
                    let c = wrap_inc(counter_of(old(self).objects(), bb));
                    let kb = spec_event_key(k);
                    &&& spec_lookup(old(self).registry(), record_kind(*event)) matches Some(e)
                        && e.1
                    &&& crate::registry::encodable(*event)
                    &&& k.spec_key() == (bare & 0xffff_ffff_8000_0000) | (c & 0x7fff_ffff)
                    &&& final (self).objects() == old(self).objects().insert(
                        bb,
                        be_bytes(c as u128, 8),
                    )
                    &&& final (self).names() == old(self).names().insert(
                        kb,
                        spec_kind_name_bytes(record_kind(*event)),
                    )
                    &&& final (self).log() == old(self).log().insert(kb, spec_payload(*event))
                },
                Err(DbError::TypeNotRegistered(_)) => spec_lookup(
                    old(self).registry(),
                    record_kind(*event),
                ) is None && *final (self) == *old(self),
                Err(DbError::NoSerializeCapability(_)) => (spec_lookup(
                    old(self).registry(),
                    record_kind(*event),
                ) matches Some(e) && !e.1) && *final (self) == *old(self),
                Err(DbError::EncodingError) => !crate::registry::encodable(*event) && *final (self)
                    == *old(self),
                Err(DbError::StoreIoError) => (spec_lookup(
                    old(self).registry(),
                    record_kind(*event),
                ) matches Some(e) && e.1) && crate::registry::encodable(*event),
                _ => false,
            },
            final (self).registry() == old(self).registry(),
    {
        let kind = event.kind();
        let entry = match self.type_registry.lookup(kind) {
            Some(e) => e,
            None => {
                return Err(
                    DbError::TypeNotRegistered(
                        String::from_str(crate::registry::kind_name(kind)),
                    ),
                );
            },
        };
        if !entry.serialize {
            return Err(
                DbError::NoSerializeCapability(String::from_str(crate::registry::kind_name(kind))),
            );
        }
        let payload = match encode_record(event) {
            Ok(p) => p,
            Err(_) => {
                return Err(DbError::EncodingError);
            },
        };
        let key = match self.get_next_key(date) {
            Ok(k) => k,
            Err(e) => {
                return Err(e);
            },
        };
        let kb = key.to_bytes();
        let name_bytes = crate::registry::kind_name(kind).as_bytes_vec();
        match self.type_tree.insert(&kb, &name_bytes) {
            Ok(()) => {},
            Err(_) => {
                return Err(DbError::StoreIoError);
            },
        }
        match self.events.insert(&kb, &payload) {
            Ok(()) => {},
            Err(_) => {
                return Err(DbError::StoreIoError);
            },
        }
        Ok(key)
    }

    /// Serialize a record through the registry and store it under a
    /// fresh random identifier: name into the names partition, payload
    /// into the objects partition.
    pub fn insert(&mut self, item: &Record) -> (r: Result<ItemId, DbError>)
        ensures
            match r {
                Ok(id) => {
                    let kb = spec_item_key(id);
                    &&& id.spec_val() != 0
                    &&& spec_lookup(old(self).registry(), record_kind(*item)) matches Some(e)
                        && e.1
                    &&& crate::registry::encodable(*item)
                    &&& final (self).names() == old(self).names().insert(
                        kb,
                        spec_kind_name_bytes(record_kind(*item)),
                    )
                    &&& final (self).objects() == old(self).objects().insert(
                        kb,
                        spec_payload(*item),
                    )
                    &&& final (self).log() == old(self).log()
                },
                Err(DbError::TypeNotRegistered(_)) => spec_lookup(
                    old(self).registry(),
                    record_kind(*item),
                ) is None && *final (self) == *old(self),
                Err(DbError::NoSerializeCapability(_)) => (spec_lookup(
                    old(self).registry(),
                    record_kind(*item),
                ) matches Some(e) && !e.1) && *final (self) == *old(self),
                Err(DbError::EncodingError) => !crate::registry::encodable(*item) && *final (self)
                    == *old(self),
                Err(DbError::StoreIoError) => (spec_lookup(
                    old(self).registry(),
                    record_kind(*item),
                ) matches Some(e) && e.1) && crate::registry::encodable(*item),
                _ => false,
            },
            final (self).registry() == old(self).registry(),
    {
        let kind = item.kind();
        let entry = match self.type_registry.lookup(kind) {
            Some(e) => e,
            None => {
                return Err(
                    DbError::TypeNotRegistered(
                        String::from_str(crate::registry::kind_name(kind)),
                    ),
                );
            },
        };
        if !entry.serialize {
            return Err(
                DbError::NoSerializeCapability(String::from_str(crate::registry::kind_name(kind))),
            );
        }
        let payload = match encode_record(item) {
            Ok(p) => p,
            Err(_) => {
                return Err(DbError::EncodingError);
            },
        };
        let id = ItemId::new();
        let kb = id.to_bytes();
        let name_bytes = crate::registry::kind_name(kind).as_bytes_vec();
        match self.type_tree.insert(&kb, &name_bytes) {
            Ok(()) => {},
            Err(_) => {
                return Err(DbError::StoreIoError);
            },
        }
        match self.db.insert(&kb, &payload) {
            Ok(()) => {},
            Err(_) => {
                return Err(DbError::StoreIoError);
            },
        }
        Ok(id)
    }

    /// The type-erased read path: the stored type name and payload
    /// under an identifier, as text.
    pub fn get_item_data(&self, key: ItemId) -> (r: Result<ItemData, DbError>)
        ensures
            ({
                let kb = spec_item_key(key);
                match r {
                    Ok(d) => self.names().contains_key(kb) && vstd::utf8::encode_utf8(d.name@)
                        == self.names()[kb] && self.objects().contains_key(kb)
                        && vstd::utf8::encode_utf8(d.data@) == self.objects()[kb],
                    Err(DbError::NoSuchEntry) => !self.names().contains_key(kb)
                        || !self.objects().contains_key(kb),
                    Err(DbError::EncodingError) => self.names().contains_key(kb) && (
                    !vstd::utf8::valid_utf8(self.names()[kb]) || (self.objects().contains_key(kb)
                        && !vstd::utf8::valid_utf8(self.objects()[kb]))),
                    Err(DbError::StoreIoError) => true,
                    _ => false,
                }
            }),
    {
        let kb = key.to_bytes();
        let name_bytes = match self.type_tree.get(&kb) {
            Ok(Some(v)) => v,
            Ok(None) => {
                return Err(DbError::NoSuchEntry);
            },
            Err(_) => {
                return Err(DbError::StoreIoError);
            },
        };
        let data_bytes = match self.db.get(&kb) {
            Ok(Some(v)) => v,
            Ok(None) => {
                return Err(DbError::NoSuchEntry);
            },
            Err(_) => {
                return Err(DbError::StoreIoError);
            },
        };
        let name = match bytes_to_string(name_bytes) {
            Ok(s) => s,
            Err(e) => {
                return Err(e);
            },
        };
        let data = match bytes_to_string(data_bytes) {
            Ok(s) => s,
            Err(e) => {
                return Err(e);
            },
        };
        Ok(ItemData { name, data })
    }

    /// The type-erased write path under a caller-chosen identifier,
    /// bypassing the registry.
    pub fn insert_item_data(&mut self, id: ItemId, item: &ItemData) -> (r: Result<(), DbError>)
        ensures
            ({
                let kb = spec_item_key(id);
                match r {
                    Ok(()) => final (self).names() == old(self).names().insert(
                        kb,
                        vstd::utf8::encode_utf8(item.name@),
                    ) && final (self).objects() == old(self).objects().insert(
                        kb,
                        vstd::utf8::encode_utf8(item.data@),
                    ) && final (self).log() == old(self).log(),
                    Err(DbError::StoreIoError) => true,
                    _ => false,
                }
            }),
            final (self).registry() == old(self).registry(),
    {
        let kb = id.to_bytes();
        let name_bytes = item.name.as_str().as_bytes_vec();
        let data_bytes = item.data.as_str().as_bytes_vec();
        match self.type_tree.insert(&kb, &name_bytes) {
            Ok(()) => {},
            Err(_) => {
                return Err(DbError::StoreIoError);
            },
        }
        match self.db.insert(&kb, &data_bytes) {
            Ok(()) => {},
            Err(_) => {
                return Err(DbError::StoreIoError);
            },
        }
        Ok(())
    }

    /// Store a record under a caller-chosen identifier, bypassing the
    /// registry's capability gate: the record's own name and payload
    /// are written as they stand.
    pub fn insert_item(&mut self, id: ItemId, item: &Record) -> (r: Result<(), DbError>)
        ensures
            match r {
                Ok(()) => {
                    let kb = spec_item_key(id);
                    &&& crate::registry::encodable(*item)
                    &&& final (self).names() == old(self).names().insert(
                        kb,
                        spec_kind_name_bytes(record_kind(*item)),
                    )
                    &&& final (self).objects() == old(self).objects().insert(
                        kb,
                        spec_payload(*item),
                    )
                    &&& final (self).log() == old(self).log()
                },
                Err(DbError::EncodingError) => !crate::registry::encodable(*item) && *final (self)
                    == *old(self),
                Err(DbError::StoreIoError) => crate::registry::encodable(*item),
                _ => false,
            },
            final (self).registry() == old(self).registry(),
    {
        let payload = match encode_record(item) {
            Ok(p) => p,
            Err(_) => {
                return Err(DbError::EncodingError);
            },
        };
        let kb = id.to_bytes();
        let name_bytes = crate::registry::kind_name(item.kind()).as_bytes_vec();
        match self.type_tree.insert(&kb, &name_bytes) {
            Ok(()) => {},
            Err(_) => {
                return Err(DbError::StoreIoError);
            },
        }
        match self.db.insert(&kb, &payload) {
            Ok(()) => {},
            Err(_) => {
                return Err(DbError::StoreIoError);
            },
        }
        Ok(())
    }

    /// The type-erased write path under a fresh random identifier.
    pub fn add_item(&mut self, item: &ItemData) -> (r: Result<ItemId, DbError>)
        ensures
            match r {
                Ok(id) => {
                    let kb = spec_item_key(id);
                    &&& id.spec_val() != 0
                    &&& final (self).names() == old(self).names().insert(
                        kb,
                        vstd::utf8::encode_utf8(item.name@),
                    )
                    &&& final (self).objects() == old(self).objects().insert(
                        kb,
                        vstd::utf8::encode_utf8(item.data@),
                    )
                    &&& final (self).log() == old(self).log()
                },
                Err(DbError::StoreIoError) => true,
                _ => false,
            },
            final (self).registry() == old(self).registry(),
    {
        let id = ItemId::new();
        match self.insert_item_data(id, item) {
            Ok(()) => Ok(id),
            Err(e) => Err(e),
        }
    }

    /// Delete the record under an identifier from both partitions;
    /// removing an absent identifier succeeds and changes nothing.
    pub fn remove(&mut self, id: ItemId) -> (r: Result<(), DbError>)
        ensures
            match r {
                Ok(()) => final (self).names() == old(self).names().remove(spec_item_key(id))
                    && final (self).objects() == old(self).objects().remove(spec_item_key(id))
                    && final (self).log() == old(self).log(),
                Err(DbError::StoreIoError) => true,
                _ => false,
            },
            final (self).registry() == old(self).registry(),
    {
        let kb = id.to_bytes();
        match self.db.remove(&kb) {
            Ok(()) => {},
            Err(_) => {
                return Err(DbError::StoreIoError);
            },
        }
        match self.type_tree.remove(&kb) {
            Ok(()) => {},
            Err(_) => {
                return Err(DbError::StoreIoError);
            },
        }
        Ok(())
    }
}

impl Database {
    /// Read back the record under an identifier, recovering its
    /// concrete type from the stored name through the registry.  The
    /// record that `insert` stored is the record read back: whenever
    /// the two partitions hold the name and payload of some record
    /// whose kind is registered with a decode capability, the read
    /// succeeds with exactly that record.
    pub fn get_obj(&self, key: ItemId) -> (r: Result<Record, DbError>)
        ensures
            ({
                let kb = spec_item_key(key);
                match r {
                    Ok(v) => self.names().contains_key(kb) && self.names()[kb]
                        == spec_kind_name_bytes(record_kind(v)) && self.objects().contains_key(kb)
                        && self.objects()[kb] == spec_payload(v) && crate::registry::encodable(v)
                        && (spec_lookup(self.registry(), record_kind(v)) matches Some(e) && e.2),
                    Err(DbError::NoSuchEntry) => !self.names().contains_key(kb)
                        || !self.objects().contains_key(kb),
                    Err(DbError::EncodingError) => self.names().contains_key(kb)
                        && !vstd::utf8::valid_utf8(self.names()[kb]),
                    Err(DbError::TypeNotRegistered(_)) => self.names().contains_key(kb) && (forall|
                        k2: RecordKind,
                    |
                        spec_kind_name_bytes(k2) == self.names()[kb] ==> spec_lookup(
                            self.registry(),
                            k2,
                        ) is None),
                    Err(DbError::NoDeserializeCapability(_)) => self.names().contains_key(kb)
                        && exists|k2: RecordKind|
                        spec_kind_name_bytes(k2) == self.names()[kb] && (#[trigger] spec_lookup(
                            self.registry(),
                            k2,
                        ) matches Some(e) && !e.2),
                    Err(DbError::MalformedPayload) => self.names().contains_key(kb)
                        && self.objects().contains_key(kb) && (exists|
                        k2: RecordKind,
                    |
                        spec_kind_name_bytes(k2) == self.names()[kb]
                            && !crate::registry::valid_payload(
                            k2,
                            #[trigger] self.objects()[kb],
                        )),
                    Err(DbError::StoreIoError) => true,
                    _ => false,
                }
            }),
            !(r matches Err(DbError::StoreIoError)) ==> forall|w: Record|
                {
                    let kb = spec_item_key(key);
                    (self.names().contains_key(kb) && self.names()[kb] == spec_kind_name_bytes(
                        #[trigger] record_kind(w),
                    ) && self.objects().contains_key(kb) && self.objects()[kb] == spec_payload(w)
                        && crate::registry::encodable(w) && (spec_lookup(
                        self.registry(),
                        record_kind(w),
                    ) matches Some(e) && e.2)) ==> (r matches Ok(v)
                        && crate::registry::record_eq(v, w))
                },
    {
        let ghost kb = spec_item_key(key);
        let keyb = key.to_bytes();
        let name_bytes = match self.type_tree.get(&keyb) {
            Ok(Some(v)) => v,
            Ok(None) => {
                return Err(DbError::NoSuchEntry);
            },
            Err(_) => {
                return Err(DbError::StoreIoError);
            },
        };
        let name = match bytes_to_string(name_bytes) {
            Ok(s) => s,
            Err(e) => {
                proof {
                    assert forall|w: Record|
                        self.names()[kb] != spec_kind_name_bytes(#[trigger] record_kind(w)) by {
                        vstd::utf8::encode_utf8_valid_utf8(spec_kind_name(record_kind(w)));
                    }
                }
                return Err(DbError::EncodingError);
            },
        };
        let entry = match self.type_registry.get_with_name(&name) {
            Some(e) => e,
            None => {
                proof {
                    assert forall|k2: RecordKind|
                        spec_kind_name_bytes(k2) == self.names()[kb] implies spec_lookup(
                        self.registry(),
                        k2,
                    ) is None by {
                        vstd::utf8::encode_utf8_decode_utf8(spec_kind_name(k2));
                        vstd::utf8::encode_utf8_decode_utf8(name@);
                        assert(spec_kind_name(k2) == name@);
                    }
                }
                return Err(
                    DbError::TypeNotRegistered(name),
                );
            },
        };
        proof {
            vstd::utf8::encode_utf8_decode_utf8(spec_kind_name(entry.kind));
            vstd::utf8::encode_utf8_decode_utf8(name@);
        }
        if !entry.deserialize {
            proof {
                assert(spec_kind_name_bytes(entry.kind) == self.names()[kb]);
                assert forall|w: Record|
                    self.names()[kb] == spec_kind_name_bytes(#[trigger] record_kind(w)) implies !(
                spec_lookup(self.registry(), record_kind(w)) matches Some(e) && e.2) by {
                    lemma_kind_name_bytes_injective(entry.kind, record_kind(w));
                }
            }
            return Err(
                DbError::NoDeserializeCapability(name),
            );
        }
        let data_bytes = match self.db.get(&keyb) {
            Ok(Some(v)) => v,
            Ok(None) => {
                return Err(DbError::NoSuchEntry);
            },
            Err(_) => {
                return Err(DbError::StoreIoError);
            },
        };
        match crate::registry::decode_record(entry.kind, &data_bytes) {
            Ok(v) => {
                proof {
                    assert forall|w: Record|
                        {
                            (self.names().contains_key(kb) && self.names()[kb]
                                == spec_kind_name_bytes(#[trigger] record_kind(w))
                                && self.objects().contains_key(kb) && self.objects()[kb]
                                == spec_payload(w) && crate::registry::encodable(w) && (
                            spec_lookup(self.registry(), record_kind(w)) matches Some(e)
                                && e.2)) ==> crate::registry::record_eq(v, w)
                        } by {
                        if self.names()[kb] == spec_kind_name_bytes(record_kind(w))
                            && self.objects()[kb] == spec_payload(w)
                            && crate::registry::encodable(w) {
                            lemma_kind_name_bytes_injective(entry.kind, record_kind(w));
                            crate::registry::lemma_payload_injective(v, w);
                        }
                    }
                }
                Ok(v)
            },
            Err(_) => {
                proof {
                    assert forall|w: Record|
                        !(self.names()[kb] == spec_kind_name_bytes(#[trigger] record_kind(w))
                            && self.objects()[kb] == spec_payload(w)
                            && crate::registry::encodable(w)) by {
                        if self.names()[kb] == spec_kind_name_bytes(record_kind(w))
                            && self.objects()[kb] == spec_payload(w)
                            && crate::registry::encodable(w) {
                            lemma_kind_name_bytes_injective(entry.kind, record_kind(w));
                            crate::registry::lemma_payload_valid(w);
                        }
                    }
                    assert(spec_kind_name_bytes(entry.kind) == self.names()[kb]);
                }
                Err(DbError::MalformedPayload)
            },
        }
    }

    /// Read back the record under an identifier as a value of the
    /// requested kind.  A record stored under any other type name
    /// fails with a type mismatch that carries the expected name and
    /// the stored record as an opaque value — never a silently wrong
    /// value: a successful read is always of the requested kind.
    pub fn get_item(&self, key: ItemId, kind: RecordKind) -> (r: Result<Record, DbError>)
        ensures
            ({
                let kb = spec_item_key(key);
                match r {
                    Ok(v) => record_kind(v) == kind && self.names().contains_key(kb)
                        && self.names()[kb] == spec_kind_name_bytes(kind)
                        && self.objects().contains_key(kb) && self.objects()[kb] == spec_payload(v)
                        && crate::registry::encodable(v) && (spec_lookup(
                        self.registry(),
                        kind,
                    ) matches Some(e) && e.2),
                    Err(DbError::TypeMismatch(expected, found)) => self.names().contains_key(kb)
                        && self.objects().contains_key(kb) && self.names()[kb]
                        != spec_kind_name_bytes(kind) && expected@ == spec_kind_name(kind)
                        && vstd::utf8::encode_utf8(found.name@) == self.names()[kb]
                        && vstd::utf8::encode_utf8(found.data@) == self.objects()[kb],
                    Err(DbError::NoSuchEntry) => !self.names().contains_key(kb)
                        || !self.objects().contains_key(kb),
                    Err(DbError::EncodingError) => self.names().contains_key(kb) && (
                    !vstd::utf8::valid_utf8(self.names()[kb]) || (self.objects().contains_key(kb)
                        && !vstd::utf8::valid_utf8(self.objects()[kb]))),
                    Err(DbError::TypeNotRegistered(_)) => self.names().contains_key(kb)
                        && self.names()[kb] == spec_kind_name_bytes(kind) && spec_lookup(
                        self.registry(),
                        kind,
                    ) is None,
                    Err(DbError::NoDeserializeCapability(_)) => self.names().contains_key(kb)
                        && self.names()[kb] == spec_kind_name_bytes(kind) && (spec_lookup(
                        self.registry(),
                        kind,
                    ) matches Some(e) && !e.2),
                    Err(DbError::MalformedPayload) => self.names().contains_key(kb)
                        && self.names()[kb] == spec_kind_name_bytes(kind)
                        && self.objects().contains_key(kb) && !crate::registry::valid_payload(
                        kind,
                        self.objects()[kb],
                    ),
                    Err(DbError::StoreIoError) => true,
                    _ => false,
                }
            }),
            !(r matches Err(DbError::StoreIoError)) ==> forall|w: Record|
                {
                    let kb = spec_item_key(key);
                    (record_kind(w) == kind && self.names().contains_key(kb) && self.names()[kb]
                        == spec_kind_name_bytes(kind) && self.objects().contains_key(kb)
                        && self.objects()[kb] == #[trigger] spec_payload(w)
                        && crate::registry::encodable(w) && (spec_lookup(
                        self.registry(),
                        kind,
                    ) matches Some(e) && e.2)) ==> (r matches Ok(v)
                        && crate::registry::record_eq(v, w))
                },
    {
        let ghost kb = spec_item_key(key);
        let keyb = key.to_bytes();
        let name_bytes = match self.type_tree.get(&keyb) {
            Ok(Some(v)) => v,
            Ok(None) => {
                return Err(DbError::NoSuchEntry);
            },
            Err(_) => {
                return Err(DbError::StoreIoError);
            },
        };
        let data_bytes = match self.db.get(&keyb) {
            Ok(Some(v)) => v,
            Ok(None) => {
                return Err(DbError::NoSuchEntry);
            },
            Err(_) => {
                return Err(DbError::StoreIoError);
            },
        };
        let ghost data_view = data_bytes@;
        let name = match bytes_to_string(name_bytes) {
            Ok(s) => s,
            Err(e) => {
                proof {
                    vstd::utf8::encode_utf8_valid_utf8(spec_kind_name(kind));
                }
                return Err(e);
            },
        };
        let data = match bytes_to_string(data_bytes) {
            Ok(s) => s,
            Err(e) => {
                proof {
                    assert forall|w: Record|
                        self.objects()[kb] != #[trigger] spec_payload(w)
                            || !crate::registry::encodable(w) by {
                        if crate::registry::encodable(w) && self.objects()[kb] == spec_payload(w) {
                            crate::registry::lemma_payload_valid(w);
                            crate::registry::lemma_payload_ascii(w);
                        }
                    }
                }
                return Err(e);
            },
        };
        if !crate::registry::name_eq(&name, crate::registry::kind_name(kind)) {
            proof {
                vstd::utf8::encode_utf8_decode_utf8(spec_kind_name(kind));
                vstd::utf8::encode_utf8_decode_utf8(name@);
            }
            return Err(
                DbError::TypeMismatch(
                    String::from_str(crate::registry::kind_name(kind)),
                    ItemData { name, data },
                ),
            );
        }
        let entry = match self.type_registry.lookup(kind) {
            Some(e) => e,
            None => {
                return Err(DbError::TypeNotRegistered(name));
            },
        };
        if !entry.deserialize {
            return Err(DbError::NoDeserializeCapability(name));
        }
        let payload = data.as_str().as_bytes_vec();
        proof {
            vstd::utf8::encode_utf8_decode_utf8(data@);
            assert(payload@ == data_view);
        }
        match crate::registry::decode_record(kind, &payload) {
            Ok(v) => {
                proof {
                    assert forall|w: Record|
                        (record_kind(w) == kind && self.objects()[kb] == #[trigger] spec_payload(w)
                            && crate::registry::encodable(w)) implies crate::registry::record_eq(
                        v,
                        w,
                    ) by {
                        crate::registry::lemma_payload_injective(v, w);
                    }
                }
                Ok(v)
            },
            Err(_) => {
                proof {
                    assert forall|w: Record|
                        !(record_kind(w) == kind && self.objects()[kb] == #[trigger] spec_payload(
                            w,
                        ) && crate::registry::encodable(w)) by {
                        if record_kind(w) == kind && self.objects()[kb] == spec_payload(w)
                            && crate::registry::encodable(w) {
                            crate::registry::lemma_payload_valid(w);
                        }
                    }
                }
                Err(DbError::MalformedPayload)
            },
        }
    }

    /// Read back a log entry: its stored name and payload as text, and
    /// the date recovered from the key's own prefix — no separate date
    /// field is stored.
    pub fn get_event(&self, key: EventId) -> (r: Result<EventData, DbError>)
        ensures
            ({
                let kb = spec_event_key(key);
                match r {
                    Ok(d) => self.names().contains_key(kb) && vstd::utf8::encode_utf8(d.name@)
                        == self.names()[kb] && self.log().contains_key(kb)
                        && vstd::utf8::encode_utf8(d.data@) == self.log()[kb]
                        && d.date.spec_bits() == ((key.spec_key() >> 32) as u32) & 0xffff_ff80,
                    Err(DbError::NoSuchEntry) => !self.names().contains_key(kb)
                        || !self.log().contains_key(kb),
                    Err(DbError::EncodingError) => self.names().contains_key(kb) && (
                    !vstd::utf8::valid_utf8(self.names()[kb]) || (self.log().contains_key(kb)
                        && !vstd::utf8::valid_utf8(self.log()[kb]))),
                    Err(DbError::StoreIoError) => true,
                    _ => false,
                }
            }),
    {
        let kb = key.to_bytes();
        let name_bytes = match self.type_tree.get(&kb) {
            Ok(Some(v)) => v,
            Ok(None) => {
                return Err(DbError::NoSuchEntry);
            },
            Err(_) => {
                return Err(DbError::StoreIoError);
            },
        };
        let data_bytes = match self.events.get(&kb) {
            Ok(Some(v)) => v,
            Ok(None) => {
                return Err(DbError::NoSuchEntry);
            },
            Err(_) => {
                return Err(DbError::StoreIoError);
            },
        };
        let name = match bytes_to_string(name_bytes) {
            Ok(s) => s,
            Err(e) => {
                return Err(e);
            },
        };
        let data = match bytes_to_string(data_bytes) {
            Ok(s) => s,
            Err(e) => {
                return Err(e);
            },
        };
        Ok(EventData { name, data, date: key.date_from_key() })
    }
}

/// Removing a key leaves it absent, and removing it again changes
/// nothing: a removed identifier reads back as missing, and removal is
/// idempotent.  These are the maps `remove` and the read paths speak
/// of.
pub proof fn lemma_remove_is_final(m: Map<Seq<u8>, Seq<u8>>, k: Seq<u8>)
    ensures
        !m.remove(k).contains_key(k),
        m.remove(k).remove(k) == m.remove(k),
{
    assert(m.remove(k).remove(k) =~= m.remove(k));
}

/// Counters only step by one: from any counter value below the guard
/// bit, the sequence numbers of successive allocations are consecutive
/// and their qualified keys pairwise distinct.  Together with the
/// per-key atomicity of the store's read-modify-write this is what
/// keeps concurrent appenders for one date from ever sharing a key.
pub proof fn lemma_allocation_steps(m: Map<Seq<u8>, Seq<u8>>, k: Seq<u8>, d: Date)
    requires
        counter_of(m, k) < 0x7fff_fffe,
    ensures
        ({
            let c1 = wrap_inc(counter_of(m, k));
            let m2 = m.insert(k, be_bytes(c1 as u128, 8));
            let c2 = wrap_inc(counter_of(m2, k));
            &&& c1 == counter_of(m, k) + 1
            &&& c2 == c1 + 1
            &&& ((((d.spec_bits() as u64) << 32) & 0xffff_ffff_8000_0000) | (c1 & 0x7fff_ffff)) != (
            (((d.spec_bits() as u64) << 32) & 0xffff_ffff_8000_0000) | (c2 & 0x7fff_ffff))
        }),
{
    let c1 = wrap_inc(counter_of(m, k));
    crate::codec::lemma_pow256_16();
    crate::codec::lemma_be_roundtrip(c1 as u128, 8);
    crate::codec::lemma_be_bytes_shape(c1 as u128, 8);
    let m2 = m.insert(k, be_bytes(c1 as u128, 8));
    assert(counter_of(m2, k) == c1);
    crate::items::lemma_distinct_sequences(d, c1, wrap_inc(c1));
}

impl Database {
    /// Read back the log entry under a qualified key, recovering its
    /// concrete type from the stored name through the registry.  The
    /// record that `add_event_obj` appended is the record read back: whenever
    /// the two partitions hold the name and payload of some record
    /// whose kind is registered with a decode capability, the read
    /// succeeds with exactly that record.
    pub fn get_event_obj(&self, key: EventId) -> (r: Result<Record, DbError>)
        ensures
            ({
                let kb = spec_event_key(key);
                match r {
                    Ok(v) => self.names().contains_key(kb) && self.names()[kb]
                        == spec_kind_name_bytes(record_kind(v)) && self.log().contains_key(kb)
                        && self.log()[kb] == spec_payload(v) && crate::registry::encodable(v)
                        && (spec_lookup(self.registry(), record_kind(v)) matches Some(e) && e.2),
                    Err(DbError::NoSuchEntry) => !self.names().contains_key(kb)
                        || !self.log().contains_key(kb),
                    Err(DbError::EncodingError) => self.names().contains_key(kb)
                        && !vstd::utf8::valid_utf8(self.names()[kb]),
                    Err(DbError::TypeNotRegistered(_)) => self.names().contains_key(kb) && (forall|
                        k2: RecordKind,
                    |
                        spec_kind_name_bytes(k2) == self.names()[kb] ==> spec_lookup(
                            self.registry(),
                            k2,
                        ) is None),
                    Err(DbError::NoDeserializeCapability(_)) => self.names().contains_key(kb)
                        && exists|k2: RecordKind|
                        spec_kind_name_bytes(k2) == self.names()[kb] && (#[trigger] spec_lookup(
                            self.registry(),
                            k2,
                        ) matches Some(e) && !e.2),
                    Err(DbError::MalformedPayload) => self.names().contains_key(kb)
                        && self.log().contains_key(kb) && (exists|
                        k2: RecordKind,
                    |
                        spec_kind_name_bytes(k2) == self.names()[kb]
                            && !crate::registry::valid_payload(
                            k2,
                            #[trigger] self.log()[kb],
                        )),
                    Err(DbError::StoreIoError) => true,
                    _ => false,
                }
            }),
            !(r matches Err(DbError::StoreIoError)) ==> forall|w: Record|
                {
                    let kb = spec_event_key(key);
                    (self.names().contains_key(kb) && self.names()[kb] == spec_kind_name_bytes(
                        #[trigger] record_kind(w),
                    ) && self.log().contains_key(kb) && self.log()[kb] == spec_payload(w)
                        && crate::registry::encodable(w) && (spec_lookup(
                        self.registry(),
                        record_kind(w),
                    ) matches Some(e) && e.2)) ==> (r matches Ok(v)
                        && crate::registry::record_eq(v, w))
                },
    {
        let ghost kb = spec_event_key(key);
        let keyb = key.to_bytes();
        let name_bytes = match self.type_tree.get(&keyb) {
            Ok(Some(v)) => v,
            Ok(None) => {
                return Err(DbError::NoSuchEntry);
            },
            Err(_) => {
                return Err(DbError::StoreIoError);
            },
        };
        let name = match bytes_to_string(name_bytes) {
            Ok(s) => s,
            Err(e) => {
                proof {
                    assert forall|w: Record|
                        self.names()[kb] != spec_kind_name_bytes(#[trigger] record_kind(w)) by {
                        vstd::utf8::encode_utf8_valid_utf8(spec_kind_name(record_kind(w)));
                    }
                }
                return Err(DbError::EncodingError);
            },
        };
        let entry = match self.type_registry.get_with_name(&name) {
            Some(e) => e,
            None => {
                proof {
                    assert forall|k2: RecordKind|
                        spec_kind_name_bytes(k2) == self.names()[kb] implies spec_lookup(
                        self.registry(),
                        k2,
                    ) is None by {
                        vstd::utf8::encode_utf8_decode_utf8(spec_kind_name(k2));
                        vstd::utf8::encode_utf8_decode_utf8(name@);
                        assert(spec_kind_name(k2) == name@);
                    }
                }
                return Err(
                    DbError::TypeNotRegistered(name),
                );
            },
        };
        proof {
            vstd::utf8::encode_utf8_decode_utf8(spec_kind_name(entry.kind));
            vstd::utf8::encode_utf8_decode_utf8(name@);
        }
        if !entry.deserialize {
            proof {
                assert(spec_kind_name_bytes(entry.kind) == self.names()[kb]);
                assert forall|w: Record|
                    self.names()[kb] == spec_kind_name_bytes(#[trigger] record_kind(w)) implies !(
                spec_lookup(self.registry(), record_kind(w)) matches Some(e) && e.2) by {
                    lemma_kind_name_bytes_injective(entry.kind, record_kind(w));
                }
            }
            return Err(
                DbError::NoDeserializeCapability(name),
            );
        }
        let data_bytes = match self.events.get(&keyb) {
            Ok(Some(v)) => v,
            Ok(None) => {
                return Err(DbError::NoSuchEntry);
            },
            Err(_) => {
                return Err(DbError::StoreIoError);
            },
        };
        match crate::registry::decode_record(entry.kind, &data_bytes) {
            Ok(v) => {
                proof {
                    assert forall|w: Record|
                        {
                            (self.names().contains_key(kb) && self.names()[kb]
                                == spec_kind_name_bytes(#[trigger] record_kind(w))
                                && self.log().contains_key(kb) && self.log()[kb]
                                == spec_payload(w) && crate::registry::encodable(w) && (
                            spec_lookup(self.registry(), record_kind(w)) matches Some(e)
                                && e.2)) ==> crate::registry::record_eq(v, w)
                        } by {
                        if self.names()[kb] == spec_kind_name_bytes(record_kind(w))
                            && self.log()[kb] == spec_payload(w)
                            && crate::registry::encodable(w) {
                            lemma_kind_name_bytes_injective(entry.kind, record_kind(w));
                            crate::registry::lemma_payload_injective(v, w);
                        }
                    }
                }
                Ok(v)
            },
            Err(_) => {
                proof {
                    assert forall|w: Record|
                        !(self.names()[kb] == spec_kind_name_bytes(#[trigger] record_kind(w))
                            && self.log()[kb] == spec_payload(w)
                            && crate::registry::encodable(w)) by {
                        if self.names()[kb] == spec_kind_name_bytes(record_kind(w))
                            && self.log()[kb] == spec_payload(w)
                            && crate::registry::encodable(w) {
                            lemma_kind_name_bytes_injective(entry.kind, record_kind(w));
                            crate::registry::lemma_payload_valid(w);
                        }
                    }
                    assert(spec_kind_name_bytes(entry.kind) == self.names()[kb]);
                }
                Err(DbError::MalformedPayload)
            },
        }
    }

}


} // verus!





