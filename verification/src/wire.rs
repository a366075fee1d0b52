//! Byte-level building blocks of the wire format: little-endian integers,
//! fixed-width name fields, and text as UTF-8.

use vstd::prelude::*;
use vstd::utf8::*;

verus! {

/// A 16-bit unsigned integer as two little-endian bytes.
pub open spec fn le16(x: u16) -> Seq<u8> {
    seq![(x % 256) as u8, (x / 256) as u8]
}

/// The integer that two little-endian bytes stand for.
pub open spec fn from_le16(lo: u8, hi: u8) -> u16 {
    (lo + 256 * hi) as u16
}

/// The two's-complement bit pattern of a signed 16-bit integer.
pub open spec fn i16_bits(x: i16) -> u16 {
    if x >= 0 {
        x as u16
    } else {
        (x + 65536) as u16
    }
}

/// The signed integer that a 16-bit pattern stands for.
pub open spec fn bits_i16(u: u16) -> i16 {
    if u < 32768 {
        u as i16
    } else {
        (u - 65536) as i16
    }
}

/// The low 16 bits of a number.
pub open spec fn low16(x: u64) -> u16 {
    (x % 65536) as u16
}

/// The low 16 bits of a number.
pub fn low_bits(x: u64) -> (u: u16)
    ensures
        u == low16(x),
{
    (x % 65536) as u16
}

/// `n` zero bytes.
pub open spec fn zeros(n: nat) -> Seq<u8> {
    Seq::new(n, |i: int| 0u8)
}

/// A name as a fixed 32-byte field: cut at 32 bytes, or filled up with zero bytes.
pub open spec fn field32(s: Seq<u8>) -> Seq<u8> {
    if s.len() >= 32 {
        s.subrange(0, 32)
    } else {
        s + zeros((32 - s.len()) as nat)
    }
}

/// `i` is where the first zero byte of `s` stands, or the length of `s` if it has none.
pub open spec fn is_first_nul(s: Seq<u8>, i: int) -> bool {
    &&& 0 <= i <= s.len()
    &&& forall|j: int| 0 <= j < i ==> s[j] != 0
    &&& (i == s.len() || s[i] == 0)
}

/// Position of the first zero byte of `s`, or its length if it has none.
pub open spec fn first_nul(s: Seq<u8>) -> int {
    choose|i: int| is_first_nul(s, i)
}

/// The logical string held by a field: the bytes before its first zero byte.
pub open spec fn until_nul(s: Seq<u8>) -> Seq<u8> {
    s.subrange(0, first_nul(s))
}

/// No byte of `s` is zero.
pub open spec fn nul_free(s: Seq<u8>) -> bool {
    forall|j: int| 0 <= j < s.len() ==> s[j] != 0
}

/// A position that satisfies `is_first_nul` is the one that `first_nul` picks.
pub proof fn lemma_first_nul_unique(s: Seq<u8>, i: int)
    requires
        is_first_nul(s, i),
    ensures
        first_nul(s) == i,
{
    let k = first_nul(s);
    assert(is_first_nul(s, k));
    if k < i {
        assert(s[k] != 0);
    }
    if i < k {
        assert(s[i] != 0);
    }
}

/// Reading a field back gives the name that was written, if the name fits and holds no zero byte.
pub proof fn lemma_field32_round_trip(s: Seq<u8>)
    requires
        s.len() <= 32,
        nul_free(s),
    ensures
        field32(s).len() == 32,
        until_nul(field32(s)) == s,
{
    let f = field32(s);
    if s.len() == 32 {
        assert(f =~= s);
    }
    assert(is_first_nul(f, s.len() as int));
    lemma_first_nul_unique(f, s.len() as int);
    assert(f.subrange(0, s.len() as int) =~= s);
}

/// Little-endian bytes survive a round trip.
pub proof fn lemma_le16_round_trip(x: u16)
    ensures
        le16(x).len() == 2,
        from_le16(le16(x)[0], le16(x)[1]) == x,
{
}

/// Bit patterns of signed integers survive a round trip.
pub proof fn lemma_i16_round_trip(x: i16)
    ensures
        bits_i16(i16_bits(x)) == x,
{
}

/// Appends the two little-endian bytes of `x`.
pub fn push_le16(out: &mut Vec<u8>, x: u16)
    ensures
        final(out)@ == old(out)@ + le16(x),
{
    out.push((x % 256) as u8);
    out.push((x / 256) as u8);
    assert(out@ =~= old(out)@ + le16(x));
}

/// Reads two little-endian bytes at `at`.
pub fn read_le16(bytes: &[u8], at: usize) -> (x: u16)
    requires
        at + 2 <= bytes@.len(),
    ensures
        x == from_le16(bytes@[at as int], bytes@[at + 1]),
{
    let lo: u16 = bytes[at] as u16;
    let hi: u16 = bytes[at + 1] as u16;
    lo + 256 * hi
}

/// The bit pattern of a signed integer.
pub fn to_bits(x: i16) -> (u: u16)
    ensures
        u == i16_bits(x),
{
    if x >= 0 {
        x as u16
    } else {
        (x as i32 + 65536) as u16
    }
}

/// The signed integer of a bit pattern.
pub fn from_bits(u: u16) -> (x: i16)
    ensures
        x == bits_i16(u),
{
    if u < 32768 {
        u as i16
    } else {
        (u as i32 - 65536) as i16
    }
}

/// Appends all of `s`.
pub fn push_all(out: &mut Vec<u8>, s: &[u8])
    ensures
        final(out)@ == old(out)@ + s@,
{
    let mut i: usize = 0;
    while i < s.len()
        invariant
            i <= s@.len(),
            out@ == old(out)@ + s@.subrange(0, i as int),
        decreases s@.len() - i,
    {
        out.push(s[i]);
        i += 1;
        assert(out@ =~= old(out)@ + s@.subrange(0, i as int));
    }
    assert(s@.subrange(0, i as int) =~= s@);
}

/// A copy of some bytes.
pub fn copy_bytes(bytes: &Vec<u8>) -> (out: Vec<u8>)
    ensures
        out@ == bytes@,
{
    let out = bytes.clone();
    assert(out@ =~= bytes@);
    out
}

/// Appends `s` as a 32-byte field.
pub fn push_field32(out: &mut Vec<u8>, s: &[u8])
    ensures
        final(out)@ == old(out)@ + field32(s@),
{
    let mut i: usize = 0;
    while i < 32
        invariant
            i <= 32,
            out@ == old(out)@ + field32(s@).subrange(0, i as int),
        decreases 32 - i,
    {
        if i < s.len() {
            out.push(s[i]);
        } else {
            out.push(0u8);
        }
        i += 1;
        assert(out@ =~= old(out)@ + field32(s@).subrange(0, i as int));
    }
    assert(field32(s@).subrange(0, 32) =~= field32(s@));
}

/// The bytes of the field at `at` that stand before its first zero byte.
pub fn read_field32(bytes: &[u8], at: usize) -> (s: Vec<u8>)
    requires
        at + 32 <= bytes@.len(),
    ensures
        s@ == until_nul(bytes@.subrange(at as int, at + 32)),
{
    let ghost f = bytes@.subrange(at as int, at + 32);
    let n: usize = bytes.len();
    let mut s: Vec<u8> = Vec::new();
    let mut i: usize = 0;
    while i < 32 && bytes[at + i] != 0
        invariant
            i <= 32,
            at + 32 <= n,
            n == bytes@.len(),
            f == bytes@.subrange(at as int, at + 32),
            s@ == f.subrange(0, i as int),
            forall|j: int| 0 <= j < i ==> f[j] != 0,
        decreases 32 - i,
    {
        s.push(bytes[at + i]);
        i += 1;
        assert(s@ =~= f.subrange(0, i as int));
    }
    proof {
        assert(is_first_nul(f, i as int));
        lemma_first_nul_unique(f, i as int);
    }
    s
}

/// Calls `core::str::from_utf8`. Its contract is taken on trust: the text
/// exists exactly when the bytes are well-formed UTF-8, and the encoding of
/// the text is then those very bytes.
#[verifier::external_body]
pub(crate) fn text_of(bytes: &[u8]) -> (res: Option<&str>)
    ensures
        res is Some <==> valid_utf8(bytes@),
        res matches Some(s) ==> encode_utf8(s@) == bytes@,
{
    core::str::from_utf8(bytes).ok()
}

/// The text that well-formed UTF-8 bytes stand for, as an owned string.
pub fn string_of(bytes: &[u8]) -> (res: Option<String>)
    ensures
        res is Some <==> valid_utf8(bytes@),
        res matches Some(s) ==> s@ == decode_utf8(bytes@) && encode_utf8(s@) == bytes@,
{
    match text_of(bytes) {
        Some(s) => {
            proof {
                encode_utf8_decode_utf8(s@);
            }
            Some(s.to_owned())
        },
        None => None,
    }
}

} // verus!
