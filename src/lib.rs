//! Decoder for libpcap capture files: the global header, the per-record
//! headers, Ethernet II frames with stacked VLAN tags, IPv4 and IPv6 (with
//! extension-header chain walking), TCP and UDP, and a projection of each
//! record onto a flow descriptor.
//!
//! Every decoder is a pure function from a byte slice to the decoded value and
//! the bytes it left, or an error. Decoded values own copies of their payloads.
use vstd::prelude::*;

pub mod common;
pub mod errors;
pub mod flow;
pub mod global_header;
pub mod ipv4;
pub mod ipv6;
pub mod layer2;
pub mod layer3;
pub mod layer4;
pub mod record;

use crate::common::{be16, be32, le16, le32, Endianness};
use crate::errors::Error;
use crate::global_header::{endianness_of, lemma_global_header_endianness, global_header_error, global_header_fields, GlobalHeader, GLOBAL_HEADER_LENGTH};
use crate::record::{lemma_chain_endianness, mirrored, framed_len, lemma_chain_push, lemma_records_framing, record_chain, record_error, record_fields, PcapRecord};

verus! {

/// A capture file written big-endian and the same capture written
/// little-endian decode alike: the header fields agree but for the byte
/// order, the records are the same values, and the undecoded tails have the
/// same length.
pub proof fn lemma_file_endianness(
    big: Seq<u8>,
    little: Seq<u8>,
    hb: GlobalHeader,
    hl: GlobalHeader,
    recs: Seq<PcapRecord>,
    rest: Seq<u8>,
)
    requires
        big.len() >= GLOBAL_HEADER_LENGTH,
        little.len() >= GLOBAL_HEADER_LENGTH,
        endianness_of(le32(big, 0) as u32) == Some(Endianness::Big),
        endianness_of(le32(little, 0) as u32) == Some(Endianness::Little),
        be16(big, 4) == le16(little, 4),
        be16(big, 6) == le16(little, 6),
        be32(big, 8) == le32(little, 8),
        be32(big, 12) == le32(little, 12),
        be32(big, 16) == le32(little, 16),
        be32(big, 20) == le32(little, 20),
        mirrored(
            big.subrange(GLOBAL_HEADER_LENGTH as int, big.len() as int),
            little.subrange(GLOBAL_HEADER_LENGTH as int, little.len() as int),
        ),
        global_header_fields(big, hb),
        global_header_fields(little, hl),
        record_chain(big.subrange(GLOBAL_HEADER_LENGTH as int, big.len() as int), hb.endianness, recs, rest),
        record_error(rest, hb.endianness) is Some,
    ensures
        global_header_error(big) is None,
        global_header_error(little) is None,
        hb.version_major == hl.version_major,
        hb.version_minor == hl.version_minor,
        hb.zone == hl.zone,
        hb.sig_figs == hl.sig_figs,
        hb.snap_length == hl.snap_length,
        hb.network == hl.network,
        little.len() == big.len(),
        record_chain(
            little.subrange(GLOBAL_HEADER_LENGTH as int, little.len() as int),
            hl.endianness,
            recs,
            little.skip(big.len() - rest.len()),
        ),
        record_error(little.skip(big.len() - rest.len()), hl.endianness) is Some,
{
    lemma_global_header_endianness(big, little, hb, hl);
    let b = big.subrange(GLOBAL_HEADER_LENGTH as int, big.len() as int);
    let l = little.subrange(GLOBAL_HEADER_LENGTH as int, little.len() as int);
    lemma_chain_endianness(b, l, recs, rest);
    assert(l.skip(b.len() - rest.len()) =~= little.skip(big.len() - rest.len()));
}

/// Entry points for decoding capture files, record sequences and single
/// records.
pub struct CaptureParser;

impl CaptureParser {
    /// Decodes a capture file: the global header, then as many records as
    /// the bytes hold, in the byte order that the header announces. Bytes
    /// after the last complete record are returned as the rest.
    pub fn parse_file(input: &[u8]) -> (r: Result<(&[u8], (GlobalHeader, Vec<PcapRecord>)), Error>)
        ensures
            match r {
                Ok((rest, (header, records))) => {
                    &&& global_header_error(input@) is None
                    &&& global_header_fields(input@, header)
                    &&& record_chain(
                        input@.subrange(GLOBAL_HEADER_LENGTH as int, input@.len() as int),
                        header.endianness,
                        records@,
                        rest@,
                    )
                    &&& record_error(rest@, header.endianness) is Some
                    &&& GLOBAL_HEADER_LENGTH + framed_len(records@) + rest@.len() == input@.len()
                },
                Err(e) => global_header_error(input@) == Some(e),
            },
    {
        let (rem, header) = GlobalHeader::parse(input)?;
        let (records_rem, records) = CaptureParser::parse_records(rem, header.endianness())?;
        proof {
            lemma_records_framing(rem@, header.endianness, records@, records_rem@);
        }
        Ok((records_rem, (header, records)))
    }

    /// Decodes records one after another until the input holds no complete
    /// record. An incomplete tail ends the sequence, is no error, and is
    /// returned as the rest.
    pub fn parse_records(input: &[u8], endianness: Endianness) -> (r: Result<(&[u8], Vec<PcapRecord>), Error>)
        ensures
            r matches Ok((rest, records)) && record_chain(input@, endianness, records@, rest@)
                && record_error(rest@, endianness) is Some,
    {
        let mut records: Vec<PcapRecord> = Vec::new();
        let mut current: &[u8] = input;
        loop
            invariant
                record_chain(input@, endianness, records@, current@),
            decreases current@.len(),
        {
            match PcapRecord::parse(current, endianness) {
                Ok((rem, rec)) => {
                    proof {
                        lemma_chain_push(input@, endianness, records@, current@, rec);
                    }
                    records.push(rec);
                    current = rem;
                },
                Err(Error::Incomplete(_)) => {
                    return Ok((current, records));
                },
                Err(e) => {
                    return Err(e);
                },
            }
        }
    }

    /// Decodes a single record.
    pub fn parse_record(input: &[u8], endianness: Endianness) -> (r: Result<(&[u8], PcapRecord), Error>)
        ensures
            match r {
                Ok((rest, rec)) => {
                    &&& record_error(input@, endianness) is None
                    &&& record_fields(input@, endianness, rec)
                    &&& rest@ == input@.subrange(crate::record::record_len(input@, endianness), input@.len() as int)
                },
                Err(e) => record_error(input@, endianness) == Some(e),
            },
    {
        PcapRecord::parse(input, endianness)
    }
}

} // verus!
