//! Machine words: little-endian bytes, and the narrowing that an integer goes
//! through when it is stored in fewer bits.
use vstd::prelude::*;

verus! {

/// Byte `i` of `v`, the lowest first.
pub open spec fn byte_of(v: int, i: int) -> u8 {
    if i == 0 {
        (v % 256) as u8
    } else if i == 1 {
        (v / 256 % 256) as u8
    } else if i == 2 {
        (v / 65536 % 256) as u8
    } else {
        (v / 16777216 % 256) as u8
    }
}

/// The two bytes of a word, the lowest first.
pub open spec fn le2(v: u16) -> Seq<u8> {
    Seq::new(2, |i: int| byte_of(v as int, i))
}

/// The four bytes of a word, the lowest first.
pub open spec fn le4(v: u32) -> Seq<u8> {
    Seq::new(4, |i: int| byte_of(v as int, i))
}

/// The word whose two bytes stand at `at`.
pub open spec fn word2(d: Seq<u8>, at: int) -> u16 {
    (d[at] + 256 * d[at + 1]) as u16
}

/// The word whose four bytes stand at `at`.
pub open spec fn word4(d: Seq<u8>, at: int) -> u32 {
    (d[at] + 256 * d[at + 1] + 65536 * d[at + 2] + 16777216 * d[at + 3]) as u32
}

/// The pattern of bits of a signed word, read as an unsigned one.
pub open spec fn unsigned_of(v: i32) -> u32 {
    if v >= 0 {
        v as u32
    } else {
        (v + 0x1_0000_0000) as u32
    }
}

/// The pattern of bits of an unsigned word, read as a signed one.
pub open spec fn signed_of(v: u32) -> i32 {
    if v < 0x8000_0000 {
        v as i32
    } else {
        (v - 0x1_0000_0000) as i32
    }
}

/// The 32-bit signed word that agrees with `v` up to a multiple of 2^32.
pub open spec fn wrap_i32(v: int) -> i32 {
    signed_of((v % 0x1_0000_0000) as u32)
}

/// The 8-bit signed word that agrees with `v` up to a multiple of 2^8.
pub open spec fn wrap_i8(v: int) -> i8 {
    let low = v % 256;
    if low < 128 {
        low as i8
    } else {
        (low - 256) as i8
    }
}

/// Division that rounds toward zero. The divisor is positive.
pub open spec fn quotient(v: int, by: int) -> int {
    if v >= 0 {
        v / by
    } else {
        -((-v) / by)
    }
}

/// Splitting a word in bytes and putting them together again gives the word.
pub proof fn bytes_round_trip(v: u16, w: u32)
    ensures
        word2(le2(v), 0) == v,
        word4(le4(w), 0) == w,
{
    assert(w == w % 256 + 256 * (w / 256 % 256) + 65536 * (w / 65536 % 256) + 16777216 * (w
        / 16777216 % 256));
}

/// Reading a signed word as an unsigned one and back gives the word.
pub proof fn sign_round_trip(v: i32)
    ensures
        signed_of(unsigned_of(v)) == v,
{
}

/// Appends the two bytes of `v`.
pub(crate) fn push_le2(out: &mut Vec<u8>, v: u16)
    ensures
        final(out)@ == old(out)@ + le2(v),
{
    out.push((v % 256) as u8);
    out.push((v / 256) as u8);
    assert(out@ =~= old(out)@ + le2(v));
}

/// Appends the four bytes of `v`.
pub(crate) fn push_le4(out: &mut Vec<u8>, v: u32)
    ensures
        final(out)@ == old(out)@ + le4(v),
{
    out.push((v % 256) as u8);
    out.push((v / 256 % 256) as u8);
    out.push((v / 65536 % 256) as u8);
    out.push((v / 16777216) as u8);
    assert(out@ =~= old(out)@ + le4(v));
}

/// Reads the two bytes at `at`.
pub(crate) fn read_le2(d: &[u8], at: usize) -> (r: u16)
    requires
        at + 2 <= d@.len(),
    ensures
        r == word2(d@, at as int),
{
    d[at] as u16 + 256 * d[at + 1] as u16
}

/// Reads the four bytes at `at`.
pub(crate) fn read_le4(d: &[u8], at: usize) -> (r: u32)
    requires
        at + 4 <= d@.len(),
    ensures
        r == word4(d@, at as int),
{
    d[at] as u32 + 256 * d[at + 1] as u32 + 65536 * d[at + 2] as u32 + 16777216 * d[at + 3] as u32
}

/// Reads the bits of a signed word as an unsigned one.
pub(crate) fn as_unsigned(v: i32) -> (r: u32)
    ensures
        r == unsigned_of(v),
{
    if v >= 0 {
        v as u32
    } else {
        (v as i64 + 0x1_0000_0000) as u32
    }
}

/// Reads the bits of an unsigned word as a signed one.
pub(crate) fn as_signed(v: u32) -> (r: i32)
    ensures
        r == signed_of(v),
{
    if v < 0x8000_0000 {
        v as i32
    } else {
        (v as i64 - 0x1_0000_0000) as i32
    }
}

/// Keeps the low 32 bits of an unsigned value, as a signed word.
pub(crate) fn narrow(v: u64) -> (r: i32)
    ensures
        r == wrap_i32(v as int),
{
    as_signed((v % 0x1_0000_0000) as u32)
}

/// Keeps the low 32 bits of a signed value that is far from the ends of its
/// range.
pub(crate) fn narrow_signed(v: i64) -> (r: i32)
    requires
        -0x1_0000_0000_0000 <= v <= 0x1_0000_0000_0000,
    ensures
        r == wrap_i32(v as int),
{
    let lifted: u64 = (v + 0x1_0000_0000_0000) as u64;
    assert((v + 0x1_0000_0000_0000int) % 0x1_0000_0000 == v % 0x1_0000_0000);
    narrow(lifted)
}

/// Keeps the low 8 bits of a signed value that is far from the ends of its
/// range, as a signed word.
pub(crate) fn narrow_i8(v: i64) -> (r: i8)
    requires
        -0x1_0000_0000_0000 <= v <= 0x1_0000_0000_0000,
    ensures
        r == wrap_i8(v as int),
{
    let lifted: u64 = (v + 0x1_0000_0000_0000) as u64;
    assert((v + 0x1_0000_0000_0000int) % 256 == v % 256);
    let low: u64 = lifted % 256;
    if low < 128 {
        low as i8
    } else {
        (low as i64 - 256) as i8
    }
}

/// Divides, rounding toward zero.
pub(crate) fn divide(v: i32, by: u32) -> (r: i32)
    requires
        0 < by <= 0x7fff_ffff,
    ensures
        r == quotient(v as int, by as int),
{
    if v >= 0 {
        let q: u32 = v as u32 / by;
        assert(q <= v) by (nonlinear_arith)
            requires
                q == v as u32 / by,
                by > 0,
                v >= 0,
        ;
        q as i32
    } else {
        let size: u32 = (-(v as i64)) as u32;
        let q: u32 = size / by;
        assert(q <= size) by (nonlinear_arith)
            requires
                q == size / by,
                by > 0,
        ;
        (-(q as i64)) as i32
    }
}

/// Words are little-endian: byte `i` counts for 256 to the power `i`, both when
/// a word is written and when it is read.
pub proof fn words_are_little_endian(v: u16, w: u32, d: Seq<u8>, at: int)
    ensures
        le2(v).len() == 2,
        le2(v)[0] + 256 * le2(v)[1] == v,
        le4(w).len() == 4,
        le4(w)[0] + 256 * le4(w)[1] + 65536 * le4(w)[2] + 16777216 * le4(w)[3] == w,
        word2(d, at) == d[at] + 256 * d[at + 1],
        word4(d, at) == d[at] + 256 * d[at + 1] + 65536 * d[at + 2] + 16777216 * d[at + 3],
{
    bytes_round_trip(v, w);
}

/// Signed words are two's complement: a negative one stands for itself and
/// 2^32, and the rest for themselves.
pub proof fn signed_words_are_twos_complement(v: i32, w: u32)
    ensures
        v >= 0 ==> unsigned_of(v) == v,
        v < 0 ==> unsigned_of(v) == v + 0x1_0000_0000,
        w <= i32::MAX ==> signed_of(w) == w,
        w > i32::MAX ==> signed_of(w) == w - 0x1_0000_0000,
{
}

/// Storing an integer in fewer bits keeps the low ones, and what fits stays as
/// it is.
pub proof fn narrowing_keeps_the_low_bits(v: int)
    ensures
        (v - wrap_i32(v)) % 0x1_0000_0000 == 0,
        i32::MIN <= v <= i32::MAX ==> wrap_i32(v) == v,
        (v - wrap_i8(v)) % 256 == 0,
        i8::MIN <= v <= i8::MAX ==> wrap_i8(v) == v,
{
    narrowing_to_32_bits(v);
    let k = v / 256;
    assert(v - wrap_i8(v) == 256 * k || v - wrap_i8(v) == 256 * (k + 1));
}

proof fn narrowing_to_32_bits(v: int)
    ensures
        (v - wrap_i32(v)) % 0x1_0000_0000 == 0,
        i32::MIN <= v <= i32::MAX ==> wrap_i32(v) == v,
{
    let k = v / 0x1_0000_0000;
    let low = v % 0x1_0000_0000;
    assert(v == 0x1_0000_0000 * k + low);
    assert(wrap_i32(v) == low || wrap_i32(v) == low - 0x1_0000_0000);
    assert(v - wrap_i32(v) == 0x1_0000_0000 * k || v - wrap_i32(v) == 0x1_0000_0000 * (k + 1));
}

/// A quotient is what is left of a number when it is shared out evenly, and what
/// remains is less than a share and on the same side of zero.
pub proof fn quotients_round_toward_zero(v: int, by: int)
    requires
        by > 0,
    ensures
        v >= 0 ==> quotient(v, by) * by <= v < quotient(v, by) * by + by,
        v <= 0 ==> quotient(v, by) * by - by < v <= quotient(v, by) * by,
{
    if v >= 0 {
        let q = v / by;
        assert(q * by <= v < q * by + by) by (nonlinear_arith)
            requires
                q == v / by,
                by > 0,
        ;
        if v == 0 {
            assert(q == 0) by (nonlinear_arith)
                requires
                    q == 0int / by,
                    by > 0,
            ;
        }
    } else {
        let u = -v;
        let q = u / by;
        assert(q * by <= u < q * by + by) by (nonlinear_arith)
            requires
                q == u / by,
                by > 0,
        ;
        assert((-q) * by == -(q * by)) by (nonlinear_arith);
    }
}

} // verus!
