use vstd::prelude::*;

use crate::common::{be16, be32, le16, le32, read_le32, read_u16, read_u32, u16_at, u32_at, Endianness};
use crate::errors::Error;

verus! {

/// Length of the capture file's global header.
pub const GLOBAL_HEADER_LENGTH: usize = 24;

/// The magic number of a file written little-endian, read little-endian.
pub const MAGIC_LITTLE: u32 = 0xa1b2c3d4;

/// The magic number of a file written big-endian, read little-endian.
pub const MAGIC_BIG: u32 = 0xd4c3b2a1;

/// A second big-endian magic number, bytes `4d 3c 2b 1a` on the wire.
pub const MAGIC_BIG_ALT: u32 = 0x1a2b3c4d;

/// The byte order that a magic number (read little-endian) announces.
pub open spec fn endianness_of(magic: u32) -> Option<Endianness> {
    if magic == MAGIC_LITTLE {
        Some(Endianness::Little)
    } else if magic == MAGIC_BIG || magic == MAGIC_BIG_ALT {
        Some(Endianness::Big)
    } else {
        None
    }
}

/// The two's complement reading of a 32-bit value.
pub open spec fn as_signed(v: int) -> int {
    if v < 0x8000_0000 {
        v
    } else {
        v - 0x1_0000_0000
    }
}

/// The global header of a capture file.
#[derive(Clone, Copy, Debug, PartialEq, Eq)]
pub struct GlobalHeader {
    pub endianness: Endianness,
    pub version_major: u16,
    pub version_minor: u16,
    /// Offset of local time from UTC, in seconds.
    pub zone: i32,
    pub sig_figs: u32,
    pub snap_length: u32,
    /// Link-layer type of the records.
    pub network: u32,
}

/// The error that decoding `s` as a global header meets, if any.
pub open spec fn global_header_error(s: Seq<u8>) -> Option<Error> {
    if s.len() < GLOBAL_HEADER_LENGTH {
        Some(Error::Incomplete((GLOBAL_HEADER_LENGTH - s.len()) as usize))
    } else if endianness_of(le32(s, 0) as u32) is None {
        Some(Error::BadMagic(le32(s, 0) as u32))
    } else {
        None
    }
}

/// `h` holds the global header at the start of `s`.
pub open spec fn global_header_fields(s: Seq<u8>, h: GlobalHeader) -> bool {
    let e = h.endianness;
    &&& endianness_of(le32(s, 0) as u32) == Some(e)
    &&& h.version_major == u16_at(s, 4, e)
    &&& h.version_minor == u16_at(s, 6, e)
    &&& h.zone == as_signed(u32_at(s, 8, e))
    &&& h.sig_figs == u32_at(s, 12, e)
    &&& h.snap_length == u32_at(s, 16, e)
    &&& h.network == u32_at(s, 20, e)
}

/// Every prefix of the global header fails as incomplete.
pub proof fn lemma_global_header_prefix_incomplete(s: Seq<u8>, k: int)
    requires
        0 <= k < GLOBAL_HEADER_LENGTH,
        k <= s.len(),
    ensures
        global_header_error(s.take(k)) matches Some(Error::Incomplete(_)),
{
}

/// A global header written big-endian and the same header written
/// little-endian decode to the same values but for the byte order.
pub proof fn lemma_global_header_endianness(big: Seq<u8>, little: Seq<u8>, hb: GlobalHeader, hl: GlobalHeader)
    requires
        big.len() >= GLOBAL_HEADER_LENGTH,
        little.len() >= GLOBAL_HEADER_LENGTH,
        endianness_of(le32(big, 0) as u32) == Some(Endianness::Big),
        endianness_of(le32(little, 0) as u32) == Some(Endianness::Little),
        be16(big, 4) == le16(little, 4),
        be16(big, 6) == le16(little, 6),
        be32(big, 8) == le32(little, 8),
        be32(big, 12) == le32(little, 12),
        be32(big, 16) == le32(little, 16),
        be32(big, 20) == le32(little, 20),
        global_header_fields(big, hb),
        global_header_fields(little, hl),
    ensures
        global_header_error(big) is None,
        global_header_error(little) is None,
        hb.endianness == Endianness::Big,
        hl.endianness == Endianness::Little,
        hb.version_major == hl.version_major,
        hb.version_minor == hl.version_minor,
        hb.zone == hl.zone,
        hb.sig_figs == hl.sig_figs,
        hb.snap_length == hl.snap_length,
        hb.network == hl.network,
{
}

/// The signed value of the 32-bit pattern `v`.
fn to_signed(v: u32) -> (r: i32)
    ensures
        r as int == as_signed(v as int),
{
    if v < 0x8000_0000 {
        v as i32
    } else {
        (v - 0x8000_0000) as i32 - 0x4000_0000 - 0x4000_0000
    }
}

impl GlobalHeader {
    pub fn endianness(&self) -> (r: Endianness)
        ensures
            r == self.endianness,
    {
        self.endianness
    }

    pub fn version_major(&self) -> (r: u16)
        ensures
            r == self.version_major,
    {
        self.version_major
    }

    pub fn version_minor(&self) -> (r: u16)
        ensures
            r == self.version_minor,
    {
        self.version_minor
    }

    pub fn snap_length(&self) -> (r: u32)
        ensures
            r == self.snap_length,
    {
        self.snap_length
    }

    pub fn network(&self) -> (r: u32)
        ensures
            r == self.network,
    {
        self.network
    }

    /// Decodes the 24-byte global header; the magic number selects the byte
    /// order of every other field and of the record headers that follow.
    pub fn parse(input: &[u8]) -> (r: Result<(&[u8], GlobalHeader), Error>)
        ensures
            match r {
                Ok((rest, h)) => {
                    &&& global_header_error(input@) is None
                    &&& global_header_fields(input@, h)
                    &&& rest@ == input@.subrange(GLOBAL_HEADER_LENGTH as int, input@.len() as int)
                },
                Err(e) => global_header_error(input@) == Some(e),
            },
    {
        let n = input.len();
        if n < GLOBAL_HEADER_LENGTH {
            return Err(Error::Incomplete(GLOBAL_HEADER_LENGTH - n));
        }
        let magic = read_le32(input, 0);
        let endianness = if magic == MAGIC_LITTLE {
            Endianness::Little
        } else if magic == MAGIC_BIG || magic == MAGIC_BIG_ALT {
            Endianness::Big
        } else {
            return Err(Error::BadMagic(magic));
        };
        let h = GlobalHeader {
            endianness,
            version_major: read_u16(input, 4, endianness),
            version_minor: read_u16(input, 6, endianness),
            zone: to_signed(read_u32(input, 8, endianness)),
            sig_figs: read_u32(input, 12, endianness),
            snap_length: read_u32(input, 16, endianness),
            network: read_u32(input, 20, endianness),
        };
        Ok((vstd::slice::slice_subrange(input, GLOBAL_HEADER_LENGTH, n), h))
    }
}

} // verus!
