//! Fixed-width byte encodings.
//!
//! Two primitive codecs are defined here: lowercase hexadecimal digits
//! (used for the textual record payloads) and raw big-endian bytes
//! (used for the store's keys and counters).  Both come with exact
//! round-trip lemmas, which the record codec and the key types build
//! their own round-trip proofs from.

use vstd::prelude::*;
use vstd::string::*;

verus! {

/// 16 to the power `n`.
pub open spec fn pow16(n: nat) -> int
    decreases n,
{
    if n == 0 {
        1
    } else {
        16 * pow16((n - 1) as nat)
    }
}

/// 256 to the power `n`.
pub open spec fn pow256(n: nat) -> int
    decreases n,
{
    if n == 0 {
        1
    } else {
        256 * pow256((n - 1) as nat)
    }
}

pub proof fn lemma_pow16_32()
    ensures
        pow16(32) == 0x1_0000_0000_0000_0000_0000_0000_0000_0000int,
        pow16(8) == 0x1_0000_0000,
        pow16(4) == 0x1_0000,
        pow16(2) == 0x100,
{
    reveal_with_fuel(pow16, 33);
}

pub proof fn lemma_pow256_16()
    ensures
        pow256(16) == 0x1_0000_0000_0000_0000_0000_0000_0000_0000int,
        pow256(8) == 0x1_0000_0000_0000_0000,
        pow256(4) == 0x1_0000_0000,
{
    reveal_with_fuel(pow256, 17);
}

/// The lowercase hexadecimal digit for a value below 16.
pub open spec fn hex_digit(v: u8) -> u8 {
    if v < 10 {
        (v + 0x30) as u8
    } else {
        (v + 0x57) as u8
    }
}

/// A byte that is an ASCII `0`-`9` or `a`-`f`.
pub open spec fn is_hex_digit(b: u8) -> bool {
    (0x30 <= b && b <= 0x39) || (0x61 <= b && b <= 0x66)
}

/// The value of a hexadecimal digit byte.
pub open spec fn hex_val(b: u8) -> u8 {
    if b <= 0x39 {
        (b - 0x30) as u8
    } else {
        (b - 0x57) as u8
    }
}

/// `v` written as exactly `n` lowercase hexadecimal digits, most
/// significant first; digits beyond `n` are dropped.
pub open spec fn hex_be(v: u128, n: nat) -> Seq<u8>
    decreases n,
{
    if n == 0 {
        Seq::empty()
    } else {
        hex_be(v / 16, (n - 1) as nat).push(hex_digit((v % 16) as u8))
    }
}

/// The value of a big-endian hexadecimal digit string, truncated to
/// 128 bits.
pub open spec fn hex_parse(s: Seq<u8>) -> u128
    decreases s.len(),
{
    if s.len() == 0 {
        0
    } else {
        ((hex_parse(s.drop_last()) * 16 + hex_val(s.last())) % 0x1_0000_0000_0000_0000_0000_0000_0000_0000int) as u128
    }
}

/// `v` written as exactly `n` big-endian bytes; bytes beyond `n` are
/// dropped.
pub open spec fn be_bytes(v: u128, n: nat) -> Seq<u8>
    decreases n,
{
    if n == 0 {
        Seq::empty()
    } else {
        be_bytes(v / 256, (n - 1) as nat).push((v % 256) as u8)
    }
}

/// The value of a big-endian byte string, truncated to 128 bits.
pub open spec fn be_val(s: Seq<u8>) -> u128
    decreases s.len(),
{
    if s.len() == 0 {
        0
    } else {
        ((be_val(s.drop_last()) * 256 + s.last()) % 0x1_0000_0000_0000_0000_0000_0000_0000_0000int) as u128
    }
}

/// Shape of a hexadecimal rendering: `n` bytes, all hexadecimal digits.
pub proof fn lemma_hex_be_shape(v: u128, n: nat)
    ensures
        hex_be(v, n).len() == n,
        forall|i: int| 0 <= i < n ==> is_hex_digit(#[trigger] hex_be(v, n)[i]),
    decreases n,
{
    if n > 0 {
        lemma_hex_be_shape(v / 16, (n - 1) as nat);
    }
}

/// Reading back a hexadecimal rendering recovers the value.
pub proof fn lemma_hex_roundtrip(v: u128, n: nat)
    requires
        v < pow16(n),
        n <= 32,
    ensures
        hex_parse(hex_be(v, n)) == v,
    decreases n,
{
    lemma_hex_be_shape(v, n);
    if n > 0 {
        assert(pow16(n) == 16 * pow16((n - 1) as nat));
        assert(v / 16 < pow16((n - 1) as nat)) by {
            if v / 16 >= pow16((n - 1) as nat) {
                assert(v >= 16 * pow16((n - 1) as nat)) by (nonlinear_arith)
                    requires
                        v / 16 >= pow16((n - 1) as nat),
                        pow16((n - 1) as nat) >= 1,
                ;
            }
            lemma_pow16_pos((n - 1) as nat);
        }
        lemma_hex_roundtrip(v / 16, (n - 1) as nat);
        let s = hex_be(v, n);
        assert(s.drop_last() =~= hex_be(v / 16, (n - 1) as nat));
        assert(hex_val(hex_digit((v % 16) as u8)) == v % 16);
        assert(hex_parse(s) == ((v / 16) * 16 + v % 16) % 0x1_0000_0000_0000_0000_0000_0000_0000_0000int);
        assert((v / 16) * 16 + v % 16 == v) by (nonlinear_arith);
    }
}

pub proof fn lemma_pow16_pos(n: nat)
    ensures
        pow16(n) >= 1,
    decreases n,
{
    if n > 0 {
        lemma_pow16_pos((n - 1) as nat);
    }
}

pub proof fn lemma_pow256_pos(n: nat)
    ensures
        pow256(n) >= 1,
    decreases n,
{
    if n > 0 {
        lemma_pow256_pos((n - 1) as nat);
    }
}

/// A string of hexadecimal digits is exactly the rendering of its own
/// value: parsing then re-rendering gives back the bytes.
pub proof fn lemma_hex_canonical(s: Seq<u8>)
    requires
        s.len() <= 32,
        forall|i: int| 0 <= i < s.len() ==> is_hex_digit(#[trigger] s[i]),
    ensures
        hex_parse(s) < pow16(s.len()),
        hex_be(hex_parse(s), s.len()) == s,
    decreases s.len(),
{
    if s.len() == 0 {
        assert(hex_be(hex_parse(s), s.len()) =~= s);
    } else {
        let p = s.drop_last();
        assert(forall|i: int| 0 <= i < p.len() ==> is_hex_digit(#[trigger] p[i]));
        lemma_hex_canonical(p);
        let hp = hex_parse(p);
        let hv = hex_val(s.last());
        assert(is_hex_digit(s.last()));
        assert(hv < 16);
        assert(hp * 16 + hv < pow16(s.len())) by (nonlinear_arith)
            requires
                hp < pow16((s.len() - 1) as nat),
                hv < 16,
                pow16(s.len() as nat) == 16 * pow16((s.len() - 1) as nat),
        ;
        assert(pow16(s.len() as nat) <= pow16(32)) by {
            lemma_pow16_mono(s.len() as nat, 32);
        }
        lemma_pow16_32();
        let v = hex_parse(s);
        assert(v == hp * 16 + hv);
        assert(v / 16 == hp && v % 16 == hv) by (nonlinear_arith)
            requires
                v == hp * 16 + hv,
                hv < 16,
                hp >= 0,
        ;
        assert(hex_digit((v % 16) as u8) == s.last());
        assert(hex_be(v, s.len()) =~= s);
    }
}

pub proof fn lemma_pow16_mono(a: nat, b: nat)
    requires
        a <= b,
    ensures
        pow16(a) <= pow16(b),
    decreases b,
{
    if a < b {
        lemma_pow16_mono(a, (b - 1) as nat);
        lemma_pow16_pos((b - 1) as nat);
    }
}

/// Shape of a big-endian byte rendering.
pub proof fn lemma_be_bytes_shape(v: u128, n: nat)
    ensures
        be_bytes(v, n).len() == n,
    decreases n,
{
    if n > 0 {
        lemma_be_bytes_shape(v / 256, (n - 1) as nat);
    }
}

/// Reading back a big-endian byte rendering recovers the value.
pub proof fn lemma_be_roundtrip(v: u128, n: nat)
    requires
        v < pow256(n),
        n <= 16,
    ensures
        be_val(be_bytes(v, n)) == v,
    decreases n,
{
    if n > 0 {
        assert(pow256(n) == 256 * pow256((n - 1) as nat));
        assert(v / 256 < pow256((n - 1) as nat)) by {
            if v / 256 >= pow256((n - 1) as nat) {
                assert(v >= 256 * pow256((n - 1) as nat)) by (nonlinear_arith)
                    requires
                        v / 256 >= pow256((n - 1) as nat),
                        pow256((n - 1) as nat) >= 1,
                ;
            }
            lemma_pow256_pos((n - 1) as nat);
        }
        lemma_be_roundtrip(v / 256, (n - 1) as nat);
        let s = be_bytes(v, n);
        lemma_be_bytes_shape(v / 256, (n - 1) as nat);
        assert(s.drop_last() =~= be_bytes(v / 256, (n - 1) as nat));
        assert(be_val(s) == ((v / 256) * 256 + v % 256) % 0x1_0000_0000_0000_0000_0000_0000_0000_0000int);
        assert((v / 256) * 256 + v % 256 == v) by (nonlinear_arith);
    }
}

/// A byte string is exactly the rendering of its own value.
pub proof fn lemma_be_canonical(s: Seq<u8>)
    requires
        s.len() <= 16,
    ensures
        be_val(s) < pow256(s.len()),
        be_bytes(be_val(s), s.len()) == s,
    decreases s.len(),
{
    if s.len() == 0 {
        assert(be_bytes(be_val(s), s.len()) =~= s);
    } else {
        let p = s.drop_last();
        lemma_be_canonical(p);
        let hp = be_val(p);
        let hv = s.last();
        assert(hp * 256 + hv < pow256(s.len())) by (nonlinear_arith)
            requires
                hp < pow256((s.len() - 1) as nat),
                hv < 256,
                pow256(s.len() as nat) == 256 * pow256((s.len() - 1) as nat),
        ;
        assert(pow256(s.len() as nat) <= pow256(16)) by {
            lemma_pow256_mono(s.len() as nat, 16);
        }
        lemma_pow256_16();
        let v = be_val(s);
        assert(v == hp * 256 + hv);
        assert(v / 256 == hp && v % 256 == hv) by (nonlinear_arith)
            requires
                v == hp * 256 + hv,
                hv < 256,
                hp >= 0,
        ;
        assert(be_bytes(v, s.len()) =~= s);
    }
}

pub proof fn lemma_pow256_mono(a: nat, b: nat)
    requires
        a <= b,
    ensures
        pow256(a) <= pow256(b),
    decreases b,
{
    if a < b {
        lemma_pow256_mono(a, (b - 1) as nat);
        lemma_pow256_pos((b - 1) as nat);
    }
}

fn hex_digit_exec(v: u8) -> (r: u8)
    requires
        v < 16,
    ensures
        r == hex_digit(v),
{
    if v < 10 {
        v + 0x30
    } else {
        v + 0x57
    }
}

fn hex_val_exec(b: u8) -> (r: Option<u8>)
    ensures
        r is Some <==> is_hex_digit(b),
        r matches Some(v) ==> v == hex_val(b) && v < 16,
{
    if 0x30 <= b && b <= 0x39 {
        Some(b - 0x30)
    } else if 0x61 <= b && b <= 0x66 {
        Some(b - 0x57)
    } else {
        None
    }
}

/// Append the `n`-digit hexadecimal rendering of `v`.
pub fn push_hex(out: &mut Vec<u8>, v: u128, n: usize)
    requires
        n <= 32,
    ensures
        final(out)@ == old(out)@ + hex_be(v, n as nat),
    decreases n,
{
    if n > 0 {
        let ghost pre = out@;
        push_hex(out, v / 16, n - 1);
        out.push(hex_digit_exec((v % 16) as u8));
        proof {
            assert(out@ =~= pre + hex_be(v, n as nat));
        }
    } else {
        proof {
            assert(out@ =~= old(out)@ + hex_be(v, 0));
        }
    }
}

/// Append the `n`-byte big-endian rendering of `v`.
pub fn push_be(out: &mut Vec<u8>, v: u128, n: usize)
    requires
        n <= 16,
    ensures
        final(out)@ == old(out)@ + be_bytes(v, n as nat),
    decreases n,
{
    if n > 0 {
        let ghost pre = out@;
        push_be(out, v / 256, n - 1);
        out.push((v % 256) as u8);
        proof {
            assert(out@ =~= pre + be_bytes(v, n as nat));
        }
    } else {
        proof {
            assert(out@ =~= old(out)@ + be_bytes(v, 0));
        }
    }
}

/// Read `n` hexadecimal digits at `start`; `None` when some byte there
/// is not a hexadecimal digit.
pub fn parse_hex(s: &Vec<u8>, start: usize, n: usize) -> (r: Option<u128>)
    requires
        start + n <= s@.len(),
        n <= 32,
    ensures
        r is Some <==> (forall|i: int|
            start <= i < start + n ==> is_hex_digit(#[trigger] s@[i])),
        r matches Some(v) ==> v == hex_parse(s@.subrange(start as int, (start + n) as int)) && v
            < pow16(n as nat) && hex_be(v, n as nat) == s@.subrange(
            start as int,
            (start + n) as int,
        ),
{
    let slen: usize = s.len();
    let mut acc: u128 = 0;
    let mut i: usize = 0;
    proof {
        lemma_pow16_mono(n as nat, 32);
        lemma_pow16_32();
    }
    while i < n
        invariant
            i <= n,
            n <= 32,
            start + n <= slen,
            slen == s@.len(),
            acc == hex_parse(s@.subrange(start as int, (start + i) as int)),
            acc < pow16(i as nat),
            forall|j: int| start <= j < start + i ==> is_hex_digit(#[trigger] s@[j]),
        decreases n - i,
    {
        let b = s[start + i];
        match hex_val_exec(b) {
            Some(v) => {
                proof {
                    lemma_pow16_mono((i + 1) as nat, 32);
                    lemma_pow16_32();
                    assert(acc * 16 + v < pow16((i + 1) as nat)) by (nonlinear_arith)
                        requires
                            acc < pow16(i as nat),
                            v < 16,
                            pow16((i + 1) as nat) == 16 * pow16(i as nat),
                    ;
                }
                let next: u128 = acc * 16 + (v as u128);
                proof {
                    let sub1 = s@.subrange(start as int, (start + i + 1) as int);
                    assert(sub1.drop_last() =~= s@.subrange(start as int, (start + i) as int));
                    assert(sub1.last() == b);
                    assert(next == hex_parse(sub1));
                }
                acc = next;
            },
            None => {
                return None;
            },
        }
        i = i + 1;
    }
    proof {
        lemma_hex_canonical(s@.subrange(start as int, (start + n) as int));
    }
    Some(acc)
}

/// An ASCII decimal digit.
pub open spec fn is_dec_digit(c: char) -> bool {
    '0' <= c && c <= '9'
}

/// The value of a decimal digit character; non-digits count as zero to
/// keep the function total.
pub open spec fn dec_val(c: char) -> nat {
    if is_dec_digit(c) {
        ((c as u32) - 0x30) as nat
    } else {
        0
    }
}

/// The decimal digit character for a value below ten.
pub open spec fn digit_char(v: nat) -> char {
    ((v + 0x30) as u8) as char
}

/// `v` written in decimal, most significant digit first, without
/// leading zeroes.
pub open spec fn dec_digits(v: nat) -> Seq<char>
    decreases v,
{
    if v < 10 {
        seq![digit_char(v)]
    } else {
        dec_digits(v / 10).push(digit_char(v % 10))
    }
}

/// The value of a decimal digit string.
pub open spec fn dec_parse(s: Seq<char>) -> nat
    decreases s.len(),
{
    if s.len() == 0 {
        0
    } else {
        dec_parse(s.drop_last()) * 10 + dec_val(s.last())
    }
}

/// A non-empty, all-digit string.
pub open spec fn all_dec_digits(s: Seq<char>) -> bool {
    s.len() > 0 && forall|i: int| 0 <= i < s.len() ==> is_dec_digit(#[trigger] s[i])
}

/// Shape of a decimal rendering: non-empty, all digits.
pub proof fn lemma_dec_shape(v: nat)
    ensures
        all_dec_digits(dec_digits(v)),
        dec_digits(v).len() >= 1,
    decreases v,
{
    assert(digit_char(v % 10) as u32 == (v % 10) + 0x30);
    assert(is_dec_digit(digit_char(v % 10)));
    if v < 10 {
        assert(digit_char(v) as u32 == v + 0x30);
        assert(is_dec_digit(digit_char(v)));
    } else {
        lemma_dec_shape(v / 10);
    }
}

/// Reading back a decimal rendering recovers the value.
pub proof fn lemma_dec_roundtrip(v: nat)
    ensures
        dec_parse(dec_digits(v)) == v,
    decreases v,
{
    assert(digit_char(v % 10) as u32 == (v % 10) + 0x30);
    assert(dec_val(digit_char(v % 10)) == v % 10) by {
        assert(is_dec_digit(digit_char(v % 10)));
    }
    if v < 10 {
        assert(digit_char(v) as u32 == v + 0x30);
        assert(dec_val(digit_char(v)) == v);
        assert(dec_parse(Seq::<char>::empty()) == 0);
        assert(dec_digits(v).drop_last() =~= Seq::<char>::empty());
        assert(dec_digits(v).last() == digit_char(v));
    } else {
        lemma_dec_roundtrip(v / 10);
        lemma_dec_shape(v / 10);
        assert(dec_digits(v).drop_last() =~= dec_digits(v / 10));
        assert(dec_parse(dec_digits(v)) == (v / 10) * 10 + v % 10);
        assert((v / 10) * 10 + v % 10 == v) by (nonlinear_arith);
    }
}

/// A value's rendering never grows past what fits its digits: parsing
/// any prefix of an all-digit string gives at most the whole string's
/// value.
pub proof fn lemma_dec_prefix_bound(s: Seq<char>, k: int)
    requires
        0 <= k <= s.len(),
    ensures
        dec_parse(s.subrange(0, k)) <= dec_parse(s),
    decreases s.len() - k,
{
    if k < s.len() {
        lemma_dec_prefix_bound(s, k + 1);
        let a = s.subrange(0, k);
        let b = s.subrange(0, k + 1);
        assert(b.drop_last() =~= a);
        assert(dec_parse(b) == dec_parse(a) * 10 + dec_val(b.last()));
        assert(dec_parse(a) <= dec_parse(a) * 10) by (nonlinear_arith)
            requires
                dec_parse(a) >= 0,
        ;
    } else {
        assert(s.subrange(0, k) =~= s);
    }
}

/// The decimal digit as a one-character text piece.
fn digit_str(d: u8) -> (r: &'static str)
    requires
        d < 10,
    ensures
        r@ =~= seq![digit_char(d as nat)],
{
    proof {
        reveal_strlit("0");
        reveal_strlit("1");
        reveal_strlit("2");
        reveal_strlit("3");
        reveal_strlit("4");
        reveal_strlit("5");
        reveal_strlit("6");
        reveal_strlit("7");
        reveal_strlit("8");
        reveal_strlit("9");
    }
    match d {
        0 => "0",
        1 => "1",
        2 => "2",
        3 => "3",
        4 => "4",
        5 => "5",
        6 => "6",
        7 => "7",
        8 => "8",
        _ => "9",
    }
}

/// Append the decimal rendering of `v`.
pub fn push_dec(out: &mut String, v: u64)
    ensures
        final (out)@ == old(out)@ + dec_digits(v as nat),
    decreases v,
{
    if v < 10 {
        out.append(digit_str(v as u8));
        proof {
            assert(out@ =~= old(out)@ + dec_digits(v as nat));
        }
    } else {
        push_dec(out, v / 10);
        out.append(digit_str((v % 10) as u8));
        proof {
            lemma_dec_shape((v / 10) as nat);
            assert(out@ =~= old(out)@ + dec_digits(v as nat));
        }
    }
}

/// A signed value in decimal: a leading minus sign for negatives.
pub open spec fn dec_i16(v: i16) -> Seq<char> {
    if v < 0 {
        seq!['-'] + dec_digits((0 - v as int) as nat)
    } else {
        dec_digits(v as nat)
    }
}

/// Append the decimal rendering of a signed 16-bit value.
pub fn push_dec_i16(out: &mut String, v: i16)
    ensures
        final (out)@ == old(out)@ + dec_i16(v),
{
    if v < 0 {
        proof {
            reveal_strlit("-");
        }
        out.append("-");
        let mag: u64 = (0i64 - (v as i64)) as u64;
        push_dec(out, mag);
        proof {
            assert(out@ =~= old(out)@ + dec_i16(v));
        }
    } else {
        push_dec(out, v as u64);
    }
}

/// The index of the first occurrence of `sep` at or after `from`, or
/// the length when there is none.
pub open spec fn spec_find(s: Seq<char>, sep: char, from: int) -> int
    decreases s.len() - from,
{
    if from < 0 || from >= s.len() {
        s.len() as int
    } else if s[from] == sep {
        from
    } else {
        spec_find(s, sep, from + 1)
    }
}

/// What `spec_find` returns always lies between `from` and the length,
/// with no separator in between.
pub proof fn lemma_find_shape(s: Seq<char>, sep: char, from: int)
    requires
        0 <= from <= s.len(),
    ensures
        from <= spec_find(s, sep, from) <= s.len(),
        spec_find(s, sep, from) < s.len() ==> s[spec_find(s, sep, from)] == sep,
        forall|j: int| from <= j < spec_find(s, sep, from) ==> s[j] != sep,
    decreases s.len() - from,
{
    if from < s.len() && s[from] != sep {
        lemma_find_shape(s, sep, from + 1);
    }
}

/// How an unsigned decimal number is read from text: an optional plus
/// sign, then digits, rejected when the value is over the limit.
pub open spec fn spec_parse_uint(s: Seq<char>, limit: nat) -> Option<nat> {
    let t = if s.len() > 0 && s[0] == '+' {
        s.drop_first()
    } else {
        s
    };
    if all_dec_digits(t) && dec_parse(t) <= limit {
        Some(dec_parse(t))
    } else {
        None
    }
}

/// How a signed 16-bit decimal number is read from text: an optional
/// sign, then digits.
pub open spec fn spec_parse_i16(s: Seq<char>) -> Option<i16> {
    if s.len() > 0 && s[0] == '-' {
        let t = s.drop_first();
        if all_dec_digits(t) && dec_parse(t) <= 32768 {
            Some((0 - dec_parse(t) as int) as i16)
        } else {
            None
        }
    } else {
        match spec_parse_uint(s, 32767) {
            Some(v) => Some(v as i16),
            None => None,
        }
    }
}

/// Read the unsigned decimal number in `s[start..end]`, refusing
/// values over `limit`.
pub fn parse_uint_range(s: &str, start: usize, end: usize, limit: u64) -> (r: Option<u64>)
    requires
        start <= end <= s@.len(),
    ensures
        match r {
            Some(v) => spec_parse_uint(s@.subrange(start as int, end as int), limit as nat)
                == Some(v as nat),
            None => spec_parse_uint(s@.subrange(start as int, end as int), limit as nat) is None,
        },
{
    let ghost seg = s@.subrange(start as int, end as int);
    proof {
        if seg.len() > 0 {
            assert(seg[0] == s@[start as int]);
        }
    }
    let mut i: usize = start;
    if i < end && s.get_char(i) == '+' {
        i = i + 1;
        proof {
            assert(seg.drop_first() =~= s@.subrange(i as int, end as int));
        }
    }
    let ghost t = s@.subrange(i as int, end as int);
    if i == end {
        proof {
            if seg.len() > 0 && seg[0] == '+' {
                assert(t =~= seg.drop_first());
            } else {
                assert(t =~= seg);
            }
            assert(t.len() == 0);
        }
        return None;
    }
    proof {
        if seg.len() > 0 && seg[0] == '+' {
            assert(t =~= seg.drop_first());
        } else {
            assert(t =~= seg);
        }
    }
    let mut acc: u64 = 0;
    let mut k: usize = i;
    while k < end
        invariant
            start <= i <= k <= end <= s@.len(),
            seg == s@.subrange(start as int, end as int),
            t == s@.subrange(i as int, end as int),
            seg.len() > 0 && seg[0] == '+' ==> t == seg.drop_first(),
            !(seg.len() > 0 && seg[0] == '+') ==> t == seg,
            acc as nat == dec_parse(s@.subrange(i as int, k as int)),
            acc <= limit,
            limit <= u64::MAX,
            forall|j: int| i <= j < k ==> is_dec_digit(#[trigger] s@[j]),
        decreases end - k,
    {
        let c = s.get_char(k);
        if !('0' <= c && c <= '9') {
            proof {
                assert(t[k - i] == s@[k as int]);
                assert(!is_dec_digit(t[k - i]));
                assert(!all_dec_digits(t));
            }
            return None;
        }
        let dv: u64 = (c as u32 - 0x30) as u64;
        proof {
            let pre = s@.subrange(i as int, k as int);
            let cur = s@.subrange(i as int, k + 1);
            assert(cur.drop_last() =~= pre);
            assert(cur.last() == s@[k as int]);
            assert(dv as nat == dec_val(s@[k as int]));
        }
        if dv > limit || acc > (limit - dv) / 10 {
            proof {
                let cur = s@.subrange(i as int, k + 1);
                if dv <= limit {
                    assert((acc as int) * 10 + dv > limit) by (nonlinear_arith)
                        requires
                            (acc as int) > (limit as int - dv as int) / 10,
                            0 <= dv <= limit,
                            acc >= 0,
                    ;
                }
                assert(dec_parse(cur) > limit);
                assert(cur =~= t.subrange(0, k + 1 - i));
                lemma_dec_prefix_bound(t, k + 1 - i);
                assert(dec_parse(t) > limit);
            }
            return None;
        }
        acc = acc * 10 + dv;
        k = k + 1;
    }
    proof {
        assert(s@.subrange(i as int, k as int) =~= t);
        assert(all_dec_digits(t));
        if seg.len() > 0 && seg[0] == '+' {
            assert(t =~= seg.drop_first());
        } else {
            assert(t =~= seg);
        }
    }
    Some(acc)
}

/// Read the signed 16-bit decimal number in `s[start..end]`.
pub fn parse_i16_range(s: &str, start: usize, end: usize) -> (r: Option<i16>)
    requires
        start <= end <= s@.len(),
    ensures
        match r {
            Some(v) => spec_parse_i16(s@.subrange(start as int, end as int)) == Some(v),
            None => spec_parse_i16(s@.subrange(start as int, end as int)) is None,
        },
{
    let ghost seg = s@.subrange(start as int, end as int);
    if start < end && s.get_char(start) == '-' {
        let ghost t = seg.drop_first();
        proof {
            assert(seg[0] == s@[start as int]);
            assert(t =~= s@.subrange(start + 1, end as int));
        }
        if start + 1 < end && s.get_char(start + 1) == '+' {
            proof {
                assert(t[0] == s@[start + 1]);
                assert(!is_dec_digit(t[0]));
                assert(!all_dec_digits(t));
            }
            return None;
        }
        match parse_uint_range(s, start + 1, end, 32768) {
            Some(v) => {
                proof {
                    assert(spec_parse_uint(t, 32768) == Some(v as nat));
                    assert(!(t.len() > 0 && t[0] == '+'));
                    assert(all_dec_digits(t) && dec_parse(t) == v as nat);
                }
                Some((0i32 - v as i32) as i16)
            },
            None => {
                proof {
                    assert(spec_parse_uint(t, 32768) is None);
                    assert(!(t.len() > 0 && t[0] == '+'));
                }
                None
            },
        }
    } else {
        match parse_uint_range(s, start, end, 32767) {
            Some(v) => Some(v as i16),
            None => None,
        }
    }
}

/// Whether `sep` occurs in `s`.
pub fn contains_char(s: &str, sep: char) -> (r: bool)
    ensures
        r == s@.contains(sep),
{
    let n: usize = s.unicode_len();
    let mut i: usize = 0;
    while i < n
        invariant
            i <= n,
            n == s@.len(),
            forall|j: int| 0 <= j < i ==> s@[j] != sep,
        decreases n - i,
    {
        if s.get_char(i) == sep {
            assert(s@.contains(sep));
            return true;
        }
        i = i + 1;
    }
    assert(forall|j: int| 0 <= j < s@.len() ==> s@[j] != sep);
    assert(!s@.contains(sep));
    false
}

/// The index of the first `sep` at or after `from`, or the length.
pub fn find_char(s: &str, sep: char, from: usize) -> (r: usize)
    requires
        from <= s@.len(),
    ensures
        r == spec_find(s@, sep, from as int),
{
    let n: usize = s.unicode_len();
    let mut i: usize = from;
    while i < n
        invariant
            from <= i <= n,
            n == s@.len(),
            spec_find(s@, sep, from as int) == spec_find(s@, sep, i as int),
        decreases n - i,
    {
        if s.get_char(i) == sep {
            return i;
        }
        i = i + 1;
    }
    i
}

} // verus!


