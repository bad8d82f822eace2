//! Identifier schemes and the wire record forms.
//!
//! `ItemId` is a random, opaque 128-bit identifier for mutable objects;
//! `EventId` is the composite date + sequence key of the append-only
//! log.  `ItemData` and `EventData` are the {type name, payload} pairs
//! that cross the store's boundary.

use crate::codec::{be_bytes, hex_be};
use crate::date::Date;
use crate::DbError;
use vstd::prelude::*;
use vstd::string::*;

verus! {

/// The canonical hyphenated text form of a 128-bit identifier: five
/// groups of 8, 4, 4, 4 and 12 lowercase hexadecimal digits.
pub open spec fn hyphenated_bytes(v: u128) -> Seq<u8> {
    hex_be(v >> 96, 8) + seq![0x2du8] + hex_be(v >> 80, 4) + seq![0x2du8] + hex_be(v >> 64, 4)
        + seq![0x2du8] + hex_be(v >> 48, 4) + seq![0x2du8] + hex_be(v, 12)
}

/// The same form as text.
pub open spec fn hyphenated_chars(v: u128) -> Seq<char> {
    hyphenated_bytes(v).map_values(|b: u8| b as char)
}

/// An opaque identifier for a mutable record: 128 random bits, with
/// the all-zero value reserved as the "unassigned" marker.
#[derive(Debug, PartialEq, Eq, Structural, Clone, Copy, Hash)]
pub struct ItemId(pub u128);

/// The name-based (version 3) identifier derived from a namespace and
/// a name: an MD5 digest with fixed version and variant bits, a pure
/// function of its two arguments.
pub uninterp spec fn v3_of(ns: u128, name: Seq<u8>) -> u128;

/// Relies on `uuid::Uuid::new_v3` and `as_u128`: the digest depends on
/// the namespace and name alone.
#[verifier::external_body]
pub(crate) fn name_based_id(ns: u128, name: &Vec<u8>) -> (r: u128)
    ensures
        r == v3_of(ns, name@),
{
    uuid::Uuid::new_v3(&uuid::Uuid::from_u128(ns), name.as_slice()).as_u128()
}

/// Relies on `uuid::Uuid::new_v4`: a fresh random identifier.  The
/// version and variant bits are forced on, so the result is never the
/// nil value; nothing more is promised of a random draw.
#[verifier::external_body]
fn fresh_random_id() -> (r: u128)
    ensures
        r != 0,
{
    uuid::Uuid::new_v4().as_u128()
}

/// Relies on `uuid::Uuid::to_string` (through `from_u128`, which takes
/// the value big-endian): the canonical lowercase hyphenated rendering
/// of the 128-bit value.
#[verifier::external_body]
fn format_id(v: u128) -> (r: String)
    ensures
        r@ == hyphenated_chars(v),
{
    uuid::Uuid::from_u128(v).to_string()
}

/// Relies on `uuid::Uuid::parse_str` and `as_u128`: the canonical
/// hyphenated rendering of a value parses back to that value.  Other
/// accepted spellings (braced, simple, urn) are left unspecified.
#[verifier::external_body]
fn parse_id(s: &str) -> (r: Option<u128>)
    ensures
        forall|v: u128| s@ == hyphenated_chars(v) ==> r == Some(v),
{
    match uuid::Uuid::parse_str(s) {
        Ok(u) => Some(u.as_u128()),
        Err(_) => None,
    }
}

impl ItemId {
    /// The identifier's 128-bit value.
    pub open spec fn spec_val(self) -> u128 {
        self.0
    }

    /// Identifiers are nothing but their value.
    pub proof fn lemma_val(a: ItemId, b: ItemId)
        ensures
            a.spec_val() == b.spec_val() ==> a == b,
    {
    }

    pub fn from_u128(id: u128) -> (r: ItemId)
        ensures
            r.spec_val() == id,
    {
        ItemId(id)
    }

    /// The reserved all-zero marker for a record not yet assigned an
    /// identifier.
    pub fn nil() -> (r: ItemId)
        ensures
            r.spec_val() == 0,
    {
        ItemId(0)
    }

    /// A fresh random identifier; never nil.
    pub fn new() -> (r: ItemId)
        ensures
            r.spec_val() != 0,
    {
        ItemId(fresh_random_id())
    }

    pub fn is_nil(&self) -> (r: bool)
        ensures
            r == (self.spec_val() == 0),
    {
        self.0 == 0
    }

    /// The identifier as a 16-byte big-endian key.
    pub fn to_bytes(&self) -> (r: Vec<u8>)
        ensures
            r@ == be_bytes(self.spec_val(), 16),
            r@.len() == 16,
    {
        let mut out: Vec<u8> = Vec::new();
        crate::codec::push_be(&mut out, self.0, 16);
        proof {
            crate::codec::lemma_be_bytes_shape(self.spec_val(), 16);
            assert(out@ =~= be_bytes(self.spec_val(), 16));
        }
        out
    }

    /// The canonical hyphenated text form.
    pub fn to_string(&self) -> (r: String)
        ensures
            r@ == hyphenated_chars(self.spec_val()),
    {
        format_id(self.0)
    }

    /// Parse an identifier from text; the canonical hyphenated form of
    /// any value is accepted and gives back that value.
    pub fn from_str(s: &str) -> (r: Result<ItemId, DbError>)
        ensures
            forall|v: u128|
                s@ == hyphenated_chars(v) ==> (r matches Ok(id) && id.spec_val() == v),
            r is Err ==> r matches Err(DbError::MalformedPayload),
    {
        match parse_id(s) {
            Some(v) => Ok(ItemId(v)),
            None => Err(DbError::MalformedPayload),
        }
    }
}

impl Default for ItemId {
    /// The default identifier is the nil marker.
    fn default() -> (r: ItemId)
        ensures
            r.spec_val() == 0,
    {
        ItemId(0)
    }
}

/// The composite key of one log entry: the packed date word in the
/// high 32 bits, a guard bit, and a 31-bit sequence field.  Big-endian
/// byte order makes the store sort entries by date, then by sequence.
#[derive(Debug, PartialEq, Eq, Structural, Clone, Copy)]
pub struct EventId(pub u64);

/// A bare-date key: the sequence field and the low seven date bits are
/// all zero.  Such keys address per-date counters, never log entries.
pub open spec fn spec_is_date_key(k: u64) -> bool {
    k & 0xffff_ffff == 0 && (k >> 32) & 0x7f == 0
}

impl EventId {
    /// The key's 64-bit value.
    pub open spec fn spec_key(self) -> u64 {
        self.0
    }

    /// Keys are nothing but their value.
    pub proof fn lemma_key(a: EventId, b: EventId)
        ensures
            a.spec_key() == b.spec_key() ==> a == b,
    {
    }

    /// The bare-date key for `date`: date word high, sequence zero.
    pub fn date_key(date: Date) -> (r: EventId)
        ensures
            r.spec_key() == (date.spec_bits() as u64) << 32,
    {
        EventId((date.bits() as u64) << 32)
    }

    /// Whether this is a bare-date key (no sequence assigned).
    pub fn is_date_key(&self) -> (r: bool)
        ensures
            r == spec_is_date_key(self.spec_key()),
    {
        self.0 & 0xffff_ffff == 0 && (self.0 >> 32) & 0x7f == 0
    }

    /// The date carried in the key's high 32 bits, with the guard and
    /// sequence bits masked away.
    pub fn date_from_key(&self) -> (r: Date)
        ensures
            r.spec_bits() == ((self.spec_key() >> 32) as u32) & 0xffff_ff80,
    {
        Date::from_bits(((self.0 >> 32) as u32) & 0xffff_ff80)
    }

    /// Set the sequence field to the low 31 bits of `num`, keeping the
    /// date prefix and the guard bit.
    pub fn set_val(&mut self, num: u64)
        ensures
            final (self).spec_key() == (old(self).spec_key() & 0xffff_ffff_8000_0000) | (num
                & 0x7fff_ffff),
    {
        self.0 = (self.0 & 0xffff_ffff_8000_0000) | (num & 0x7fff_ffff);
    }

    /// Set the date prefix from `date`, keeping the guard bit and the
    /// sequence field.
    pub fn set_date(&mut self, date: Date)
        ensures
            final (self).spec_key() == (((date.spec_bits() & 0xffff_ff80) as u64) << 32) | (old(
                self,
            ).spec_key() & 0x7f_ffff_ffff),
    {
        self.0 = (((date.bits() & 0xffff_ff80) as u64) << 32) | (self.0 & 0x7f_ffff_ffff);
    }

    /// This key with its sequence field set to the low 31 bits of `id`.
    pub fn with_id(self, id: u64) -> (r: EventId)
        ensures
            r.spec_key() == (self.spec_key() & 0xffff_ffff_8000_0000) | (id & 0x7fff_ffff),
    {
        let mut k = self;
        k.set_val(id);
        k
    }

    /// The key's 64-bit value in decimal, the form it takes in request
    /// paths.
    pub fn to_string(&self) -> (r: String)
        ensures
            r@ == crate::codec::dec_digits(self.spec_key() as nat),
    {
        let mut out = String::new();
        crate::codec::push_dec(&mut out, self.0);
        proof {
            assert(out@ =~= crate::codec::dec_digits(self.spec_key() as nat));
        }
        out
    }

    /// Parse a key from its decimal text form: an optional plus sign,
    /// then digits, rejected when the value overflows 64 bits.
    pub fn from_str(s: &str) -> (r: Result<EventId, DbError>)
        ensures
            match crate::codec::spec_parse_uint(s@, u64::MAX as nat) {
                Some(v) => r matches Ok(k) && k.spec_key() == v,
                None => r == Err::<EventId, DbError>(DbError::MalformedPayload),
            },
    {
        let n: usize = s.unicode_len();
        proof {
            assert(s@.subrange(0, n as int) =~= s@);
        }
        match crate::codec::parse_uint_range(s, 0, n, u64::MAX) {
            Some(v) => Ok(EventId(v)),
            None => Err(DbError::MalformedPayload),
        }
    }

    /// The key as an 8-byte big-endian string, the form under which it
    /// is ordered in the store.
    pub fn to_bytes(&self) -> (r: Vec<u8>)
        ensures
            r@ == be_bytes(self.spec_key() as u128, 8),
            r@.len() == 8,
    {
        let mut out: Vec<u8> = Vec::new();
        crate::codec::push_be(&mut out, self.0 as u128, 8);
        proof {
            crate::codec::lemma_be_bytes_shape(self.spec_key() as u128, 8);
            assert(out@ =~= be_bytes(self.spec_key() as u128, 8));
        }
        out
    }
}

/// The bare-date key of a well-formed date round-trips: its date is
/// the original date, it is a bare-date key, and giving it a sequence
/// number makes it a qualified key, distinct from the bare one.
pub proof fn lemma_date_key_roundtrip(d: Date, n: u64)
    requires
        d.wf(),
    ensures
        ({
            let bare = (d.spec_bits() as u64) << 32;
            let qualified = (bare & 0xffff_ffff_8000_0000) | (n & 0x7fff_ffff);
            &&& ((bare >> 32) as u32) & 0xffff_ff80 == d.spec_bits()
            &&& spec_is_date_key(bare)
            &&& ((qualified >> 32) as u32) & 0xffff_ff80 == d.spec_bits()
            &&& (n & 0x7fff_ffff != 0 ==> !spec_is_date_key(qualified))
        }),
{
    d.lemma_bits(d);
    let w = d.spec_bits();
    assert(w & 0x7f == 0 ==> ((((w as u64) << 32) >> 32) as u32) & 0xffff_ff80 == w
        && ((w as u64) << 32) & 0xffff_ffff == 0 && ((((w as u64) << 32) >> 32) & 0x7f) == 0)
        by (bit_vector);
    let bare = (w as u64) << 32;
    let q = (bare & 0xffff_ffff_8000_0000) | (n & 0x7fff_ffff);
    assert(((((((w as u64) << 32) & 0xffff_ffff_8000_0000) | (n & 0x7fff_ffff)) >> 32) as u32)
        & 0xffff_ff80 == (((w as u64) << 32) >> 32) as u32 & 0xffff_ff80 && (n & 0x7fff_ffff != 0
        ==> ((((w as u64) << 32) & 0xffff_ffff_8000_0000) | (n & 0x7fff_ffff)) & 0xffff_ffff != 0))
        by (bit_vector);
}

/// Distinct sequence numbers below the guard bit give distinct
/// qualified keys for the same date.
pub proof fn lemma_distinct_sequences(d: Date, n1: u64, n2: u64)
    requires
        n1 != n2,
        n1 < 0x8000_0000,
        n2 < 0x8000_0000,
    ensures
        ({
            let bare = (d.spec_bits() as u64) << 32;
            ((bare & 0xffff_ffff_8000_0000) | (n1 & 0x7fff_ffff)) != ((bare
                & 0xffff_ffff_8000_0000) | (n2 & 0x7fff_ffff))
        }),
{
    let w = d.spec_bits();
    assert((((w as u64) << 32 & 0xffff_ffff_8000_0000) | (n1 & 0x7fff_ffff)) != (((w as u64) << 32
        & 0xffff_ffff_8000_0000) | (n2 & 0x7fff_ffff))) by (bit_vector)
        requires
            n1 != n2,
            n1 < 0x8000_0000,
            n2 < 0x8000_0000,
    ;
}

/// A type-erased record: the stored type's name beside its serialized
/// payload.
#[derive(Debug)]
pub struct ItemData {
    pub name: String,
    pub data: String,
}

/// A type-erased log entry: a record plus the date it was appended
/// under.
#[derive(Debug)]
pub struct EventData {
    pub name: String,
    pub data: String,
    pub date: Date,
}

/// A storable record: it knows its identifier and can take a fresh one.
pub trait Item {
    fn id(&self) -> ItemId;

    fn set_id(&mut self, id: ItemId);

    /// Identifiers of records this one refers to.
    fn dependencies(&self) -> Option<Vec<ItemId>>;
}

/// A minimal storable record used by the loading tests.
#[derive(Debug)]
pub struct TestString {
    pub id: ItemId,
    pub data: String,
}

impl Item for TestString {
    fn id(&self) -> ItemId {
        self.id
    }

    fn set_id(&mut self, id: ItemId) {
        self.id = id;
    }

    fn dependencies(&self) -> Option<Vec<ItemId>> {
        None
    }
}

} // verus!
