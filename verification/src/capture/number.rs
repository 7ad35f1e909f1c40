//! Little-endian numbers.

use byteorder::{LittleEndian, ReadBytesExt, WriteBytesExt};
use vstd::prelude::*;

verus! {

/// The lowest `n` bytes of `v`, the lowest first. A negative number is taken as
/// its two's complement.
pub open spec fn le_bytes(v: int, n: nat) -> Seq<u8>
    decreases n,
{
    if n == 0 {
        Seq::empty()
    } else {
        seq![(v % 256) as u8] + le_bytes(v / 256, (n - 1) as nat)
    }
}

/// The number with these bytes, the lowest first.
pub open spec fn le_value(bytes: Seq<u8>) -> nat
    decreases bytes.len(),
{
    if bytes.len() == 0 {
        0
    } else {
        bytes[0] as nat + 256 * le_value(bytes.skip(1))
    }
}

/// `v` as a signed number whose top bit is worth `half`.
pub open spec fn signed(v: nat, half: nat) -> int {
    if v < half {
        v as int
    } else {
        v - 2 * half
    }
}

/// Appends a number with `WriteBytesExt::write_u16` of `byteorder`, which never
/// fails on a vector.
#[verifier::external_body]
pub(crate) fn put_u16(out: &mut Vec<u8>, v: u16)
    ensures
        final(out)@ == old(out)@ + le_bytes(v as int, 2),
{
    out.write_u16::<LittleEndian>(v).unwrap();
}

/// Appends a number with `WriteBytesExt::write_u32` of `byteorder`, which never
/// fails on a vector.
#[verifier::external_body]
pub(crate) fn put_u32(out: &mut Vec<u8>, v: u32)
    ensures
        final(out)@ == old(out)@ + le_bytes(v as int, 4),
{
    out.write_u32::<LittleEndian>(v).unwrap();
}

/// Appends a number with `WriteBytesExt::write_i32` of `byteorder`, in two's
/// complement. It never fails on a vector.
#[verifier::external_body]
pub(crate) fn put_i32(out: &mut Vec<u8>, v: i32)
    ensures
        final(out)@ == old(out)@ + le_bytes(v as int, 4),
{
    out.write_i32::<LittleEndian>(v).unwrap();
}

/// Appends a number with `WriteBytesExt::write_u64` of `byteorder`, which never
/// fails on a vector.
#[verifier::external_body]
pub(crate) fn put_u64(out: &mut Vec<u8>, v: u64)
    ensures
        final(out)@ == old(out)@ + le_bytes(v as int, 8),
{
    out.write_u64::<LittleEndian>(v).unwrap();
}

/// Appends a number with `WriteBytesExt::write_i64` of `byteorder`, in two's
/// complement. It never fails on a vector.
#[verifier::external_body]
pub(crate) fn put_i64(out: &mut Vec<u8>, v: i64)
    ensures
        final(out)@ == old(out)@ + le_bytes(v as int, 8),
{
    out.write_i64::<LittleEndian>(v).unwrap();
}

/// Reads a number with `ReadBytesExt::read_u16` of `byteorder`, which fails just
/// where there are too few bytes.
#[verifier::external_body]
pub(crate) fn get_u16(bytes: &[u8]) -> (r: Option<u16>)
    ensures
        match r {
            Some(v) => bytes@.len() >= 2 && v == le_value(bytes@.take(2)),
            None => bytes@.len() < 2,
        },
{
    let mut rest = bytes;
    rest.read_u16::<LittleEndian>().ok()
}

/// Reads a number with `ReadBytesExt::read_u32` of `byteorder`, which fails just
/// where there are too few bytes.
#[verifier::external_body]
pub(crate) fn get_u32(bytes: &[u8]) -> (r: Option<u32>)
    ensures
        match r {
            Some(v) => bytes@.len() >= 4 && v == le_value(bytes@.take(4)),
            None => bytes@.len() < 4,
        },
{
    let mut rest = bytes;
    rest.read_u32::<LittleEndian>().ok()
}

/// Reads a number in two's complement with `ReadBytesExt::read_i32` of
/// `byteorder`, which fails just where there are too few bytes.
#[verifier::external_body]
pub(crate) fn get_i32(bytes: &[u8]) -> (r: Option<i32>)
    ensures
        match r {
            Some(v) => bytes@.len() >= 4 && v == signed(le_value(bytes@.take(4)), 0x8000_0000),
            None => bytes@.len() < 4,
        },
{
    let mut rest = bytes;
    rest.read_i32::<LittleEndian>().ok()
}

/// Reads a number with `ReadBytesExt::read_u64` of `byteorder`, which fails just
/// where there are too few bytes.
#[verifier::external_body]
pub(crate) fn get_u64(bytes: &[u8]) -> (r: Option<u64>)
    ensures
        match r {
            Some(v) => bytes@.len() >= 8 && v == le_value(bytes@.take(8)),
            None => bytes@.len() < 8,
        },
{
    let mut rest = bytes;
    rest.read_u64::<LittleEndian>().ok()
}

/// Reads a number in two's complement with `ReadBytesExt::read_i64` of
/// `byteorder`, which fails just where there are too few bytes.
#[verifier::external_body]
pub(crate) fn get_i64(bytes: &[u8]) -> (r: Option<i64>)
    ensures
        match r {
            Some(v) => {
                &&& bytes@.len() >= 8
                &&& v == signed(le_value(bytes@.take(8)), 0x8000_0000_0000_0000)
            },
            None => bytes@.len() < 8,
        },
{
    let mut rest = bytes;
    rest.read_i64::<LittleEndian>().ok()
}

/// 256 to the power of `n`.
pub open spec fn bytes_range(n: nat) -> int
    decreases n,
{
    if n == 0 {
        1
    } else {
        256 * bytes_range((n - 1) as nat)
    }
}

/// The bytes of a number give back the number, as far as they hold it.
pub proof fn number_is_read_back(v: int, n: nat)
    ensures
        le_bytes(v, n).len() == n,
        le_value(le_bytes(v, n)) == v % bytes_range(n),
        bytes_range(n) > 0,
    decreases n,
{
    if n > 0 {
        let m = (n - 1) as nat;
        number_is_read_back(v / 256, m);
        let bytes = le_bytes(v, n);
        let rest = le_bytes(v / 256, m);
        assert(bytes.skip(1) =~= rest);
        assert(bytes[0] == v % 256);
        let range = bytes_range(m);
        let k = (v / 256) / range;
        let low = (v / 256) % range;
        vstd::arithmetic::div_mod::lemma_fundamental_div_mod(v / 256, range);
        assert(v == k * (256 * range) + (256 * low + v % 256)) by (nonlinear_arith)
            requires
                v == 256 * (v / 256) + v % 256,
                v / 256 == range * k + low,
        ;
        assert(0 <= low < range);
        vstd::arithmetic::div_mod::lemma_fundamental_div_mod_converse(
            v,
            256 * range,
            k,
            256 * low + v % 256,
        );
    } else {
        assert(v % 1 == 0);
    }
}

} // verus!
