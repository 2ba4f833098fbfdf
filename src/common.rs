use vstd::prelude::*;

verus! {

/// Length of a MAC address in bytes.
pub const MAC_LENGTH: usize = 6;

/// Byte order of the multi-byte fields of a capture file's headers.
#[derive(Clone, Copy, Debug, PartialEq, Eq, Structural)]
pub enum Endianness {
    Big,
    Little,
}

/// A 48-bit hardware address.
#[derive(Clone, Copy, Debug, PartialEq, Eq)]
pub struct MacAddress(pub [u8; 6]);

/// Identifier of a VLAN, the 12-bit VID of a tag.
pub type Vlan = u16;

/// Big-endian 16-bit value at offset `i`.
pub open spec fn be16(s: Seq<u8>, i: int) -> int {
    s[i] as int * 256 + s[i + 1] as int
}

/// Big-endian 32-bit value at offset `i`.
pub open spec fn be32(s: Seq<u8>, i: int) -> int {
    be16(s, i) * 65536 + be16(s, i + 2)
}

/// Little-endian 16-bit value at offset `i`.
pub open spec fn le16(s: Seq<u8>, i: int) -> int {
    s[i + 1] as int * 256 + s[i] as int
}

/// Little-endian 32-bit value at offset `i`.
pub open spec fn le32(s: Seq<u8>, i: int) -> int {
    le16(s, i + 2) * 65536 + le16(s, i)
}

/// 16-bit value at offset `i` in the given byte order.
pub open spec fn u16_at(s: Seq<u8>, i: int, e: Endianness) -> int {
    match e {
        Endianness::Big => be16(s, i),
        Endianness::Little => le16(s, i),
    }
}

/// 32-bit value at offset `i` in the given byte order.
pub open spec fn u32_at(s: Seq<u8>, i: int, e: Endianness) -> int {
    match e {
        Endianness::Big => be32(s, i),
        Endianness::Little => le32(s, i),
    }
}

pub fn read_be16(b: &[u8], i: usize) -> (r: u16)
    requires
        i + 2 <= b.len(),
    ensures
        r as int == be16(b@, i as int),
{
    (b[i] as u16) * 256 + (b[i + 1] as u16)
}

pub fn read_be32(b: &[u8], i: usize) -> (r: u32)
    requires
        i + 4 <= b.len(),
    ensures
        r as int == be32(b@, i as int),
{
    let hi = read_be16(b, i) as u32;
    let lo = read_be16(b, i + 2) as u32;
    hi * 65536 + lo
}

pub fn read_le16(b: &[u8], i: usize) -> (r: u16)
    requires
        i + 2 <= b.len(),
    ensures
        r as int == le16(b@, i as int),
{
    (b[i + 1] as u16) * 256 + (b[i] as u16)
}

pub fn read_le32(b: &[u8], i: usize) -> (r: u32)
    requires
        i + 4 <= b.len(),
    ensures
        r as int == le32(b@, i as int),
{
    let hi = read_le16(b, i + 2) as u32;
    let lo = read_le16(b, i) as u32;
    hi * 65536 + lo
}

/// Reads a 16-bit header field in the file's byte order.
pub fn read_u16(b: &[u8], i: usize, e: Endianness) -> (r: u16)
    requires
        i + 2 <= b.len(),
    ensures
        r as int == u16_at(b@, i as int, e),
{
    match e {
        Endianness::Big => read_be16(b, i),
        Endianness::Little => read_le16(b, i),
    }
}

/// Reads a 32-bit header field in the file's byte order.
pub fn read_u32(b: &[u8], i: usize, e: Endianness) -> (r: u32)
    requires
        i + 4 <= b.len(),
    ensures
        r as int == u32_at(b@, i as int, e),
{
    match e {
        Endianness::Big => read_be32(b, i),
        Endianness::Little => read_le32(b, i),
    }
}

/// Copies the six bytes at offset `i` into a MAC address.
pub fn to_mac_address(b: &[u8], i: usize) -> (r: MacAddress)
    requires
        i + MAC_LENGTH <= b@.len(),
    ensures
        r.0@ == b@.subrange(i as int, i + MAC_LENGTH),
{
    let r = MacAddress([b[i], b[i + 1], b[i + 2], b[i + 3], b[i + 4], b[i + 5]]);
    assert(r.0@ =~= b@.subrange(i as int, i + MAC_LENGTH));
    r
}

/// Copies the bytes of `b` in `[i, j)` into a new vector.
pub fn copy_range(b: &[u8], i: usize, j: usize) -> (r: Vec<u8>)
    requires
        i <= j <= b@.len(),
    ensures
        r@ == b@.subrange(i as int, j as int),
{
    vstd::slice::slice_to_vec(vstd::slice::slice_subrange(b, i, j))
}

} // verus!
