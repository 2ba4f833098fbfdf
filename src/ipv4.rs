use vstd::prelude::*;

use crate::common::{be16, copy_range, read_be16};
use crate::errors::Error;
use crate::layer3::{protocol_of, InternetProtocolId};

verus! {

/// Length of an IPv4 header without options.
pub const IPV4_MIN_HEADER: usize = 20;

/// A decoded IPv4 packet.
pub struct IPv4 {
    pub version: u8,
    /// Header length in 32-bit words.
    pub ihl: u8,
    pub tos: u8,
    pub length: u16,
    pub id: u16,
    /// The three flag bits and the fragment offset.
    pub flags: u16,
    pub ttl: u8,
    pub protocol: InternetProtocolId,
    pub checksum: u16,
    pub src_ip: [u8; 4],
    pub dst_ip: [u8; 4],
    pub options: Vec<u8>,
    pub payload: Vec<u8>,
}

/// The header length that the IHL of `s` declares.
pub open spec fn ipv4_header_len(s: Seq<u8>) -> int {
    (s[0] % 16) as int * 4
}

/// The total length field of `s`.
pub open spec fn ipv4_total_len(s: Seq<u8>) -> int {
    be16(s, 2)
}

/// The error that decoding `s` as an IPv4 packet meets, if any.
pub open spec fn ipv4_error(s: Seq<u8>) -> Option<Error> {
    if s.len() >= 1 && s[0] / 16 != 4 {
        Some(Error::BadVersion(s[0] / 16))
    } else if s.len() < IPV4_MIN_HEADER {
        Some(Error::Incomplete((IPV4_MIN_HEADER - s.len()) as usize))
    } else if s[0] % 16 < 5 {
        Some(Error::BadHeaderLength(s[0] % 16))
    } else if s.len() < ipv4_header_len(s) {
        Some(Error::Incomplete((ipv4_header_len(s) - s.len()) as usize))
    } else if ipv4_total_len(s) < ipv4_header_len(s) {
        Some(Error::BadLength(ipv4_total_len(s) as u16))
    } else if s.len() < ipv4_total_len(s) {
        Some(Error::Incomplete((ipv4_total_len(s) - s.len()) as usize))
    } else {
        None
    }
}

/// `v` holds the fields of the IPv4 packet `s`; its payload ends where the
/// total length says.
pub open spec fn ipv4_fields(s: Seq<u8>, v: IPv4) -> bool {
    &&& v.version == s[0] / 16
    &&& v.ihl == s[0] % 16
    &&& v.tos == s[1]
    &&& v.length == ipv4_total_len(s)
    &&& v.id == be16(s, 4)
    &&& v.flags == be16(s, 6)
    &&& v.ttl == s[8]
    &&& v.protocol == protocol_of(s[9])
    &&& v.checksum == be16(s, 10)
    &&& v.src_ip@ == s.subrange(12, 16)
    &&& v.dst_ip@ == s.subrange(16, 20)
    &&& v.options@ == s.subrange(IPV4_MIN_HEADER as int, ipv4_header_len(s))
    &&& v.payload@ == s.subrange(ipv4_header_len(s), ipv4_total_len(s))
}

/// Every prefix of a decodable IPv4 packet that ends before its total
/// length fails as incomplete.
pub proof fn lemma_ipv4_prefix_incomplete(s: Seq<u8>, k: int)
    requires
        ipv4_error(s) is None,
        0 <= k < ipv4_total_len(s),
    ensures
        ipv4_error(s.take(k)) matches Some(Error::Incomplete(_)),
{
    let t = s.take(k);
    if k >= 1 {
        assert(t[0] == s[0]);
    }
    if k >= IPV4_MIN_HEADER {
        assert(t[0] == s[0] && t[2] == s[2] && t[3] == s[3]);
        assert(ipv4_total_len(t) == ipv4_total_len(s));
    }
}

impl IPv4 {
    /// Decodes an IPv4 packet; bytes after its total length are returned as
    /// the rest.
    pub fn parse(input: &[u8]) -> (r: Result<(&[u8], IPv4), Error>)
        ensures
            match r {
                Ok((rest, v)) => {
                    &&& ipv4_error(input@) is None
                    &&& ipv4_fields(input@, v)
                    &&& rest@ == input@.subrange(ipv4_total_len(input@), input@.len() as int)
                    &&& ipv4_header_len(input@) + v.payload@.len() + rest@.len() == input@.len()
                },
                Err(e) => ipv4_error(input@) == Some(e),
            },
    {
        let n = input.len();
        if n >= 1 && input[0] / 16 != 4 {
            return Err(Error::BadVersion(input[0] / 16));
        }
        if n < IPV4_MIN_HEADER {
            return Err(Error::Incomplete(IPV4_MIN_HEADER - n));
        }
        let version = input[0] / 16;
        let ihl = input[0] % 16;
        if ihl < 5 {
            return Err(Error::BadHeaderLength(ihl));
        }
        let header_len = ihl as usize * 4;
        if n < header_len {
            return Err(Error::Incomplete(header_len - n));
        }
        let length = read_be16(input, 2);
        if (length as usize) < header_len {
            return Err(Error::BadLength(length));
        }
        if n < length as usize {
            return Err(Error::Incomplete(length as usize - n));
        }
        let src_ip = [input[12], input[13], input[14], input[15]];
        let dst_ip = [input[16], input[17], input[18], input[19]];
        assert(src_ip@ =~= input@.subrange(12, 16));
        assert(dst_ip@ =~= input@.subrange(16, 20));
        let v = IPv4 {
            version,
            ihl,
            tos: input[1],
            length,
            id: read_be16(input, 4),
            flags: read_be16(input, 6),
            ttl: input[8],
            protocol: InternetProtocolId::new(input[9]),
            checksum: read_be16(input, 10),
            src_ip,
            dst_ip,
            options: copy_range(input, IPV4_MIN_HEADER, header_len),
            payload: copy_range(input, header_len, length as usize),
        };
        Ok((vstd::slice::slice_subrange(input, length as usize, n), v))
    }
}

} // verus!
