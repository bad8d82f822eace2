//! Calendar dates packed into a single 32-bit word.
//!
//! The packed layout is `[year:16][month:4][day:5][reserved:7]`, with the
//! year stored as the bit pattern of a signed 16-bit value and the low
//! seven bits always zero.  The packing is an internal optimisation: all
//! contracts speak of the (year, month, day) triple.

use crate::DbError;
use vstd::prelude::*;
use vstd::string::*;

verus! {

/// Day count for each month of a non-leap year; month 0 shares
/// December's length so that stepping backwards out of January works
/// without a special case.
pub open spec fn spec_days_in_month(month: u8) -> u8 {
    if month == 2 {
        28
    } else if month == 4 || month == 6 || month == 9 || month == 11 {
        30
    } else {
        31
    }
}

/// The implemented leap-year rule: a year divisible by 100 is never a
/// leap year, otherwise divisibility by 4 decides.  This omits the
/// divisible-by-400 exception of the Gregorian calendar (so year 2000
/// counts as non-leap); date arithmetic is kept bit-for-bit compatible
/// with this rule rather than the astronomical one.
pub open spec fn spec_is_leap_year(year: i16) -> bool {
    if year % 100 == 0 {
        false
    } else {
        year % 4 == 0
    }
}

/// A (year, month, day) triple is accepted by the constructor when the
/// month is real and the day fits the month, where February always
/// admits day 29 regardless of the year.
pub open spec fn date_valid(year: i16, month: u8, day: u8) -> bool {
    1 <= month <= 12 && 1 <= day && day <= (if month == 2 {
        29u8
    } else {
        spec_days_in_month(month)
    })
}

/// The packed word: year bits in the high 16, month in the next 4, day
/// in the next 5, and seven reserved zero bits.
pub open spec fn spec_pack(year: i16, month: u8, day: u8) -> u32 {
    (((((((year as u32) << 4) + (month as u32)) as u32) << 5) + (day as u32)) as u32) << 7
}

#[derive(Debug, PartialEq, Eq, Structural, Clone, Copy)]
pub struct Date(pub u32);

pub fn days_in_month(month: u8) -> (r: u8)
    requires
        month <= 12,
    ensures
        r == spec_days_in_month(month),
{
    if month == 2 {
        28
    } else if month == 4 || month == 6 || month == 9 || month == 11 {
        30
    } else {
        31
    }
}

pub fn is_leap_year(year: i16) -> (r: bool)
    ensures
        r == spec_is_leap_year(year),
{
    if year % 100 == 0 {
        false
    } else if year % 4 == 0 {
        true
    } else {
        false
    }
}

/// Packing never loses information: extracting the three fields of
/// `spec_pack` gives back the original triple, and the reserved low
/// seven bits are zero.
pub proof fn lemma_pack_unpack(year: i16, month: u8, day: u8)
    requires
        month < 16,
        day < 32,
    ensures
        ((spec_pack(year, month, day) >> 16) as u16) as i16 == year,
        ((spec_pack(year, month, day) >> 12) & 0b1111) as u8 == month,
        ((spec_pack(year, month, day) >> 7) & 0b11111) as u8 == day,
        spec_pack(year, month, day) & 0x7f == 0,
{
    let y = year;
    let m = month;
    let d = day;
    let w = spec_pack(y, m, d);
    assert(w == (((((((y as u32) << 4) + (m as u32)) as u32) << 5) + (d as u32)) as u32) << 7);
    assert((((((((((y as u32) << 4) + (m as u32)) as u32) << 5) + (d as u32)) as u32) << 7) >> 16)
        as u16 as i16 == y && ((((((((y as u32) << 4) + (m as u32)) as u32) << 5) + (d as u32))
        as u32) << 7) >> 12 & 0b1111 == m as u32 && ((((((((y as u32) << 4) + (m as u32)) as u32)
        << 5) + (d as u32)) as u32) << 7) >> 7 & 0b11111 == d as u32 && (((((((y as u32) << 4) + (
    m as u32)) as u32) << 5) + (d as u32)) as u32) << 7 & 0x7f == 0) by (bit_vector)
        requires
            m < 16,
            d < 32,
    ;
}

impl Date {
    /// The packed 32-bit word itself.
    pub open spec fn spec_bits(self) -> u32 {
        self.0
    }

    /// The year field, recovered from the high 16 bits.
    pub open spec fn spec_year(self) -> i16 {
        ((self.0 >> 16) as u16) as i16
    }

    /// The month field, recovered from bits 12..16.
    pub open spec fn spec_month(self) -> u8 {
        ((self.0 >> 12) & 0b1111) as u8
    }

    /// The day field, recovered from bits 7..12.
    pub open spec fn spec_day(self) -> u8 {
        ((self.0 >> 7) & 0b11111) as u8
    }

    /// A well-formed date: the packed word is exactly the packing of a
    /// valid (year, month, day) triple.
    pub open spec fn wf(self) -> bool {
        date_valid(self.spec_year(), self.spec_month(), self.spec_day())
            && self.0 == spec_pack(self.spec_year(), self.spec_month(), self.spec_day())
    }

    /// The canonical packed date for a triple, at the specification
    /// level; `new_ymd` returns exactly this value.
    pub open spec fn spec_new_ymd(year: i16, month: u8, day: u8) -> Date {
        Date(spec_pack(year, month, day))
    }

    /// A well-formed date is the canonical packing of its own fields.
    pub proof fn lemma_canonical(self)
        requires
            self.wf(),
        ensures
            Date::spec_new_ymd(self.spec_year(), self.spec_month(), self.spec_day()) == self,
            date_valid(self.spec_year(), self.spec_month(), self.spec_day()),
    {
    }

    /// A well-formed date carries a valid triple, and is determined by
    /// it: two well-formed dates with the same fields are equal.
    pub proof fn lemma_wf(self, other: Date)
        requires
            self.wf(),
            other.wf(),
        ensures
            date_valid(self.spec_year(), self.spec_month(), self.spec_day()),
            self.spec_year() == other.spec_year() && self.spec_month() == other.spec_month()
                && self.spec_day() == other.spec_day() ==> self == other,
    {
    }

    /// How the field extractors and well-formedness relate to the raw
    /// packed word, for reasoning in the key modules.
    pub proof fn lemma_bits(self, other: Date)
        ensures
            self.spec_year() == ((self.spec_bits() >> 16) as u16) as i16,
            self.spec_month() == ((self.spec_bits() >> 12) & 0b1111) as u8,
            self.spec_day() == ((self.spec_bits() >> 7) & 0b11111) as u8,
            self.wf() ==> self.spec_bits() & 0x7f == 0,
            self.spec_bits() == other.spec_bits() ==> self == other,
            self.wf() ==> self.spec_bits() == spec_pack(
                self.spec_year(),
                self.spec_month(),
                self.spec_day(),
            ),
    {
        if self.wf() {
            lemma_pack_unpack(self.spec_year(), self.spec_month(), self.spec_day());
        }
    }

    pub fn new_ymd(year: i16, month: u8, day: u8) -> (r: Date)
        requires
            date_valid(year, month, day),
        ensures
            r.wf(),
            r.spec_year() == year,
            r.spec_month() == month,
            r.spec_day() == day,
            r.spec_bits() == spec_pack(year, month, day),
    {
        let yb: u32 = year as u32;
        let m = month;
        let d = day;
        proof {
            assert((yb << 4) <= 0xffff_fff0u32 && ((yb << 4) & 0xf) == 0) by (bit_vector);
            assert(((((yb << 4) + (m as u32)) as u32) << 5) <= 0xffff_ffe0u32 && (((((yb << 4) + (
            m as u32)) as u32) << 5) & 0x1f) == 0) by (bit_vector)
                requires
                    m < 16,
            ;
        }
        let mut val: u32 = yb << 4;
        val = val + (m as u32);
        val = val << 5;
        val = val + (d as u32);
        let r = Date(val << 7);
        proof {
            lemma_pack_unpack(year, month, day);
        }
        r
    }

    pub fn year(&self) -> (r: i16)
        ensures
            r == self.spec_year(),
    {
        ((self.0 >> 16) as u16) as i16
    }

    pub fn month(&self) -> (r: u8)
        ensures
            r == self.spec_month(),
    {
        ((self.0 >> 12) & 0b1111) as u8
    }

    pub fn day(&self) -> (r: u8)
        ensures
            r == self.spec_day(),
    {
        ((self.0 >> 7) & 0b11111) as u8
    }

    pub(crate) fn bits(&self) -> (r: u32)
        ensures
            r == self.spec_bits(),
    {
        self.0
    }

    /// Whether this value is the canonical packing of a valid triple.
    pub fn check_wf(&self) -> (r: bool)
        ensures
            r == self.wf(),
    {
        let y = self.year();
        let m = self.month();
        let d = self.day();
        if 1 <= m && m <= 12 && 1 <= d && d <= (if m == 2 {
            29
        } else {
            days_in_month(m)
        }) {
            let w = Date::new_ymd(y, m, d);
            w.bits() == self.bits()
        } else {
            false
        }
    }

    pub(crate) fn from_bits(bits: u32) -> (r: Date)
        ensures
            r.spec_bits() == bits,
    {
        Date(bits)
    }

    /// The packed word as four big-endian bytes, the form under which
    /// a date is embedded in keys and names.
    pub fn to_bytes(&self) -> (r: Vec<u8>)
        ensures
            r@ == crate::codec::be_bytes(self.spec_bits() as u128, 4),
            r@.len() == 4,
    {
        let mut out: Vec<u8> = Vec::new();
        crate::codec::push_be(&mut out, self.0 as u128, 4);
        proof {
            crate::codec::lemma_be_bytes_shape(self.spec_bits() as u128, 4);
            assert(out@ =~= crate::codec::be_bytes(self.spec_bits() as u128, 4));
        }
        out
    }

    pub fn next(&self) -> (r: Date)
        requires
            self.wf(),
            !(self.spec_year() == i16::MAX && self.spec_month() == 12 && self.spec_day() == 31),
        ensures
            r.wf(),
            (r.spec_year(), r.spec_month(), r.spec_day()) == spec_next(
                self.spec_year(),
                self.spec_month(),
                self.spec_day(),
            ),
    {
        let mut day: u8 = self.day();
        let mut month: u8 = self.month();
        let mut year: i16 = self.year();
        day = day + 1;
        if is_leap_year(year) && month == 2 && day > 29 {
            day = 1;
            month = month + 1;
        } else if day > days_in_month(month) && !(is_leap_year(year) && month == 2) {
            day = 1;
            month = month + 1;
        }
        if month > 12 {
            month = 1;
            year = year + 1;
        }
        Date::new_ymd(year, month, day)
    }

    pub fn prev(&self) -> (r: Date)
        requires
            self.wf(),
            !(self.spec_year() == i16::MIN && self.spec_month() == 1 && self.spec_day() == 1),
        ensures
            r.wf(),
            (r.spec_year(), r.spec_month(), r.spec_day()) == spec_prev(
                self.spec_year(),
                self.spec_month(),
                self.spec_day(),
            ),
    {
        let mut day: u8 = self.day();
        let mut month: u8 = self.month();
        let mut year: i16 = self.year();
        day = day - 1;
        if day == 0 {
            month = month - 1;
            if is_leap_year(year) && month == 2 {
                day = 29;
            } else {
                day = days_in_month(month);
            }
        }
        if month == 0 {
            year = year - 1;
            month = 12;
        }
        Date::new_ymd(year, month, day)
    }
}

/// The length of a month under the implemented leap rule.
pub open spec fn month_len(year: i16, month: u8) -> u8 {
    if month == 2 && spec_is_leap_year(year) {
        29
    } else {
        spec_days_in_month(month)
    }
}

/// A triple that names a real calendar day under the implemented leap
/// rule; stricter than `date_valid`, which admits February 29 in every
/// year.
pub open spec fn calendar_valid(year: i16, month: u8, day: u8) -> bool {
    1 <= month <= 12 && 1 <= day <= month_len(year, month)
}

/// The day after: step the day, rolling into the next month when the
/// day leaves the month, and into the next year past December.
pub open spec fn spec_next(year: i16, month: u8, day: u8) -> (i16, u8, u8) {
    if day < month_len(year, month) {
        (year, month, ((day + 1) as u8))
    } else if month < 12 {
        (year, ((month + 1) as u8), 1u8)
    } else {
        (((year + 1) as i16), 1u8, 1u8)
    }
}

/// The day before: step the day back, rolling into the previous month
/// below day 1, and into the previous year before January.
pub open spec fn spec_prev(year: i16, month: u8, day: u8) -> (i16, u8, u8) {
    if day > 1 {
        (year, month, ((day - 1) as u8))
    } else if month > 1 {
        (year, ((month - 1) as u8), month_len(year, ((month - 1) as u8)))
    } else {
        (((year - 1) as i16), 12u8, 31u8)
    }
}

/// Stepping forward then back returns to the start, for every real
/// calendar day but the last representable one.
pub proof fn lemma_prev_of_next(year: i16, month: u8, day: u8)
    requires
        calendar_valid(year, month, day),
        !(year == i16::MAX && month == 12 && day == 31),
    ensures
        ({
            let (y2, m2, d2) = spec_next(year, month, day);
            spec_prev(y2, m2, d2) == (year, month, day)
        }),
{
}

/// Stepping back then forward returns to the start, for every real
/// calendar day but the first representable one.
pub proof fn lemma_next_of_prev(year: i16, month: u8, day: u8)
    requires
        calendar_valid(year, month, day),
        !(year == i16::MIN && month == 1 && day == 1),
    ensures
        ({
            let (y2, m2, d2) = spec_prev(year, month, day);
            spec_next(y2, m2, d2) == (year, month, day)
        }),
{
}

impl Date {
    /// The date as text with a chosen separator, fields unpadded.
    pub open spec fn spec_date_text(self, sep: char) -> Seq<char> {
        crate::codec::dec_i16(self.spec_year()) + seq![sep] + crate::codec::dec_digits(
            self.spec_month() as nat,
        ) + seq![sep] + crate::codec::dec_digits(self.spec_day() as nat)
    }

    /// The `year-month-day` text form used in web form fields.
    pub fn to_web_string(&self) -> (r: String)
        ensures
            r@ == self.spec_date_text('-'),
    {
        proof {
            reveal_strlit("-");
        }
        let mut out = String::new();
        crate::codec::push_dec_i16(&mut out, self.year());
        out.append("-");
        crate::codec::push_dec(&mut out, self.month() as u64);
        out.append("-");
        crate::codec::push_dec(&mut out, self.day() as u64);
        proof {
            assert(out@ =~= self.spec_date_text('-'));
        }
        out
    }

    /// The `year/month/day` display form.
    pub fn to_string(&self) -> (r: String)
        ensures
            r@ == self.spec_date_text('/'),
    {
        proof {
            reveal_strlit("/");
        }
        let mut out = String::new();
        crate::codec::push_dec_i16(&mut out, self.year());
        out.append("/");
        crate::codec::push_dec(&mut out, self.month() as u64);
        out.append("/");
        crate::codec::push_dec(&mut out, self.day() as u64);
        proof {
            assert(out@ =~= self.spec_date_text('/'));
        }
        out
    }

    /// Parse a date from `year-month-day` or `year/month/day` text:
    /// the dash form whenever a dash occurs anywhere, the slash form
    /// otherwise; text after a third separator is ignored.  A triple
    /// that reads but does not name a constructible date is rejected
    /// rather than taken on faith.
    pub fn from_str(s: &str) -> (r: Result<Date, DbError>)
        ensures
            match spec_parse_date(s@) {
                Some(t) => if date_valid(t.0, t.1, t.2) {
                    r == Ok::<Date, DbError>(Date::spec_new_ymd(t.0, t.1, t.2))
                } else {
                    r == Err::<Date, DbError>(DbError::MalformedPayload)
                },
                None => r == Err::<Date, DbError>(DbError::MalformedPayload),
            },
            r matches Ok(d) ==> d.wf(),
    {
        let sep: char = if crate::codec::contains_char(s, '-') {
            '-'
        } else {
            '/'
        };
        let n: usize = s.unicode_len();
        proof {
            crate::codec::lemma_find_shape(s@, sep, 0);
        }
        let p1 = crate::codec::find_char(s, sep, 0);
        if p1 == n {
            return Err(DbError::MalformedPayload);
        }
        proof {
            crate::codec::lemma_find_shape(s@, sep, p1 + 1);
        }
        let p2 = crate::codec::find_char(s, sep, p1 + 1);
        if p2 == n {
            return Err(DbError::MalformedPayload);
        }
        proof {
            crate::codec::lemma_find_shape(s@, sep, p2 + 1);
        }
        let p3 = crate::codec::find_char(s, sep, p2 + 1);
        let y = match crate::codec::parse_i16_range(s, 0, p1) {
            Some(v) => v,
            None => {
                return Err(DbError::MalformedPayload);
            },
        };
        let m64 = match crate::codec::parse_uint_range(s, p1 + 1, p2, 255) {
            Some(v) => v,
            None => {
                return Err(DbError::MalformedPayload);
            },
        };
        let d64 = match crate::codec::parse_uint_range(s, p2 + 1, p3, 255) {
            Some(v) => v,
            None => {
                return Err(DbError::MalformedPayload);
            },
        };
        let m: u8 = m64 as u8;
        let d: u8 = d64 as u8;
        if 1 <= m && m <= 12 && 1 <= d && d <= (
        if m == 2 {
            29
        } else {
            days_in_month(m)
        }) {
            Ok(Date::new_ymd(y, m, d))
        } else {
            Err(DbError::MalformedPayload)
        }
    }
}

/// How a date reads from text: year, month and day separated by `-`,
/// or by `/` when no dash occurs anywhere; anything after a third
/// separator is ignored.
pub open spec fn spec_parse_date(s: Seq<char>) -> Option<(i16, u8, u8)> {
    let sep: char = if s.contains('-') {
        '-'
    } else {
        '/'
    };
    let p1 = crate::codec::spec_find(s, sep, 0);
    if p1 >= s.len() {
        None
    } else {
        let p2 = crate::codec::spec_find(s, sep, p1 + 1);
        if p2 >= s.len() {
            None
        } else {
            let p3 = crate::codec::spec_find(s, sep, p2 + 1);
            let y = crate::codec::spec_parse_i16(s.subrange(0, p1));
            let m = crate::codec::spec_parse_uint(s.subrange(p1 + 1, p2), 255);
            let d = crate::codec::spec_parse_uint(s.subrange(p2 + 1, p3), 255);
            match (y, m, d) {
                (Some(y), Some(m), Some(d)) => Some((y, m as u8, d as u8)),
                _ => None,
            }
        }
    }
}

/// Rendering a date and parsing it back gives the date again, for
/// every well-formed date of a non-negative year; a negative year's
/// leading minus sign would be taken for a field separator.
pub proof fn lemma_date_text_roundtrip(d: Date)
    requires
        d.wf(),
        d.spec_year() >= 0,
    ensures
        spec_parse_date(d.spec_date_text('-')) == Some(
            (d.spec_year(), d.spec_month(), d.spec_day()),
        ),
{
    let y = d.spec_year();
    let m = d.spec_month();
    let dd = d.spec_day();
    let ys = crate::codec::dec_digits(y as nat);
    let ms = crate::codec::dec_digits(m as nat);
    let ds = crate::codec::dec_digits(dd as nat);
    let s = d.spec_date_text('-');
    crate::codec::lemma_dec_shape(y as nat);
    crate::codec::lemma_dec_shape(m as nat);
    crate::codec::lemma_dec_shape(dd as nat);
    crate::codec::lemma_dec_roundtrip(y as nat);
    crate::codec::lemma_dec_roundtrip(m as nat);
    crate::codec::lemma_dec_roundtrip(dd as nat);
    assert(s == ys + seq!['-'] + ms + seq!['-'] + ds);
    let l1 = ys.len() as int;
    let l2 = l1 + 1 + ms.len() as int;
    assert(s.len() == l2 + 1 + ds.len());
    assert(forall|j: int| 0 <= j < s.len() ==> s[j] == (if j < l1 {
        ys[j]
    } else if j == l1 {
        '-'
    } else if j < l2 {
        ms[j - l1 - 1]
    } else if j == l2 {
        '-'
    } else {
        ds[j - l2 - 1]
    }));
    assert(!crate::codec::is_dec_digit('-'));
    assert(s[l1] == '-');
    assert(s.contains('-'));
    crate::codec::lemma_find_shape(s, '-', 0);
    let p1 = crate::codec::spec_find(s, '-', 0);
    assert(p1 == l1) by {
        if p1 < l1 {
            assert(crate::codec::is_dec_digit(ys[p1]));
            assert(s[p1] != '-');
        }
        if p1 > l1 {
            assert(s[l1] == '-');
        }
    }
    crate::codec::lemma_find_shape(s, '-', p1 + 1);
    let p2 = crate::codec::spec_find(s, '-', p1 + 1);
    assert(p2 == l2) by {
        if p2 < l2 {
            assert(crate::codec::is_dec_digit(ms[p2 - l1 - 1]));
            assert(s[p2] != '-');
        }
        if p2 > l2 {
            assert(s[l2] == '-');
        }
    }
    crate::codec::lemma_find_shape(s, '-', p2 + 1);
    let p3 = crate::codec::spec_find(s, '-', p2 + 1);
    assert(p3 == s.len()) by {
        if p3 < s.len() {
            assert(crate::codec::is_dec_digit(ds[p3 - l2 - 1]));
            assert(s[p3] != '-');
        }
    }
    assert(s.subrange(0, p1) =~= ys);
    assert(s.subrange(p1 + 1, p2) =~= ms);
    assert(s.subrange(p2 + 1, p3) =~= ds);
    assert(crate::codec::spec_parse_i16(ys) == Some(y)) by {
        assert(ys[0] != '-' && ys[0] != '+');
        assert(crate::codec::spec_parse_uint(ys, 32767) == Some(y as nat));
    }
    assert(crate::codec::spec_parse_uint(ms, 255) == Some(m as nat)) by {
        assert(ms[0] != '+');
    }
    assert(crate::codec::spec_parse_uint(ds, 255) == Some(dd as nat)) by {
        assert(ds[0] != '+');
    }
}

} // verus!

