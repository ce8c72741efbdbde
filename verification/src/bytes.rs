//! Little-endian numbers and four-byte tags in a byte slice.

use byteorder::{LittleEndian, ReadBytesExt};
use vstd::prelude::*;
use vstd::slice::slice_subrange;

verus! {

/// The unsigned 16-bit number whose low byte stands at `at`.
#[verifier::opaque]
pub open spec fn le_u16(s: Seq<u8>, at: int) -> u16 {
    (s[at] + 0x100 * s[at + 1]) as u16
}

/// The unsigned 32-bit number whose lowest byte stands at `at`.
#[verifier::opaque]
pub open spec fn le_u32(s: Seq<u8>, at: int) -> u32 {
    (s[at] + 0x100 * s[at + 1] + 0x1_0000 * s[at + 2] + 0x100_0000 * s[at + 3]) as u32
}

/// The unsigned 64-bit number whose lowest byte stands at `at`.
#[verifier::opaque]
pub open spec fn le_u64(s: Seq<u8>, at: int) -> u64 {
    (le_u32(s, at) + 0x1_0000_0000 * le_u32(s, at + 4)) as u64
}

/// The two's complement reading of a 16-bit number.
pub open spec fn signed16(v: u16) -> i16 {
    if v < 0x8000 {
        v as i16
    } else {
        (v - 0x1_0000) as i16
    }
}

/// `byteorder::ReadBytesExt::read_u32::<LittleEndian>` on a byte slice: the first
/// four bytes as a little-endian number, or nothing where there are fewer than four.
#[verifier::external_body]
fn read_u32(src: &[u8]) -> (r: Option<u32>)
    ensures
        src@.len() >= 4 ==> r == Some(le_u32(src@, 0)),
        src@.len() < 4 ==> r is None,
{
    let mut reader = src;
    reader.read_u32::<LittleEndian>().ok()
}

/// `byteorder::ReadBytesExt::read_u64::<LittleEndian>` on a byte slice: the first
/// eight bytes as a little-endian number, or nothing where there are fewer than eight.
#[verifier::external_body]
fn read_u64(src: &[u8]) -> (r: Option<u64>)
    ensures
        src@.len() >= 8 ==> r == Some(le_u64(src@, 0)),
        src@.len() < 8 ==> r is None,
{
    let mut reader = src;
    reader.read_u64::<LittleEndian>().ok()
}

/// `byteorder::ReadBytesExt::read_i16::<LittleEndian>` on a byte slice: the first two
/// bytes as a little-endian two's complement number, or nothing where there are fewer
/// than two.
#[verifier::external_body]
fn read_i16(src: &[u8]) -> (r: Option<i16>)
    ensures
        src@.len() >= 2 ==> r == Some(signed16(le_u16(src@, 0))),
        src@.len() < 2 ==> r is None,
{
    let mut reader = src;
    reader.read_i16::<LittleEndian>().ok()
}

/// The 32-bit number at `at`, or `None` where the slice ends before it does.
pub(crate) fn u32_at(data: &[u8], at: usize) -> (r: Option<u32>)
    requires
        at <= data@.len(),
    ensures
        r == (if at + 4 <= data.len() {
            Some(le_u32(data@, at as int))
        } else {
            None
        }),
{
    reveal(le_u32);
    read_u32(slice_subrange(data, at, data.len()))
}

/// The 64-bit number at `at`, or `None` where the slice ends before it does.
pub(crate) fn u64_at(data: &[u8], at: usize) -> (r: Option<u64>)
    requires
        at <= data@.len(),
    ensures
        r == (if at + 8 <= data.len() {
            Some(le_u64(data@, at as int))
        } else {
            None
        }),
{
    reveal(le_u32);
    reveal(le_u64);
    read_u64(slice_subrange(data, at, data.len()))
}

/// The signed 16-bit number at `at`, or `None` where the slice ends before it does.
pub(crate) fn i16_at(data: &[u8], at: usize) -> (r: Option<i16>)
    requires
        at <= data@.len(),
    ensures
        r == (if at + 2 <= data.len() {
            Some(signed16(le_u16(data@, at as int)))
        } else {
            None
        }),
{
    reveal(le_u16);
    read_i16(slice_subrange(data, at, data.len()))
}

/// The four bytes at `at`.
pub open spec fn tag_at(s: Seq<u8>, at: int) -> [u8; 4] {
    [s[at], s[at + 1], s[at + 2], s[at + 3]]
}

/// The four bytes at `at`.
pub(crate) fn four_bytes(data: &[u8], at: usize) -> (r: [u8; 4])
    requires
        at + 4 <= data@.len(),
    ensures
        r == tag_at(data@, at as int),
{
    [data[at], data[at + 1], data[at + 2], data[at + 3]]
}

/// Whether two tags are the same.
pub(crate) fn same_tag(a: &[u8; 4], b: &[u8; 4]) -> (r: bool)
    ensures
        r == (*a == *b),
{
    let r: bool = a[0] == b[0] && a[1] == b[1] && a[2] == b[2] && a[3] == b[3];
    assert(r ==> a@ =~= b@);
    assert(r ==> *a =~= *b);
    r
}

} // verus!
