use vstd::prelude::*;

use crate::common::{be16, be32, copy_range, read_be16, read_be32};
use crate::errors::Error;
use crate::layer3::InternetProtocolId;

verus! {

/// Length of a TCP header without options.
pub const TCP_MIN_HEADER: usize = 20;

/// Length of a UDP header.
pub const UDP_HEADER: usize = 8;

/// Ports of one TCP segment or UDP datagram.
#[derive(Clone, Copy, Debug, PartialEq, Eq, Structural)]
pub struct Layer4FlowInfo {
    pub src_port: u16,
    pub dst_port: u16,
}

/// A decoded TCP segment.
pub struct Tcp {
    pub src_port: u16,
    pub dst_port: u16,
    pub sequence_number: u32,
    pub acknowledgement_number: u32,
    /// Header length in 32-bit words.
    pub data_offset: u8,
    /// The twelve bits after the data offset.
    pub flags: u16,
    pub window: u16,
    pub checksum: u16,
    pub urgent_pointer: u16,
    pub options: Vec<u8>,
    pub payload: Vec<u8>,
}

/// A decoded UDP datagram.
pub struct Udp {
    pub src_port: u16,
    pub dst_port: u16,
    pub length: u16,
    pub checksum: u16,
    pub payload: Vec<u8>,
}

/// The TCP header length that the data offset of `s` declares.
pub open spec fn tcp_header_len(s: Seq<u8>) -> int {
    (s[12] / 16) as int * 4
}

/// The error that decoding `s` as a TCP segment meets, if any.
pub open spec fn tcp_error(s: Seq<u8>) -> Option<Error> {
    if s.len() < TCP_MIN_HEADER {
        Some(Error::Incomplete((TCP_MIN_HEADER - s.len()) as usize))
    } else if s[12] / 16 < 5 {
        Some(Error::BadDataOffset(s[12] / 16))
    } else if s.len() < tcp_header_len(s) {
        Some(Error::Incomplete((tcp_header_len(s) - s.len()) as usize))
    } else {
        None
    }
}

/// `t` holds the fields of the TCP segment `s`; the payload runs to the end.
pub open spec fn tcp_fields(s: Seq<u8>, t: Tcp) -> bool {
    &&& t.src_port == be16(s, 0)
    &&& t.dst_port == be16(s, 2)
    &&& t.sequence_number == be32(s, 4)
    &&& t.acknowledgement_number == be32(s, 8)
    &&& t.data_offset == s[12] / 16
    &&& t.flags == (s[12] % 16) as int * 256 + s[13] as int
    &&& t.window == be16(s, 14)
    &&& t.checksum == be16(s, 16)
    &&& t.urgent_pointer == be16(s, 18)
    &&& t.options@ == s.subrange(TCP_MIN_HEADER as int, tcp_header_len(s))
    &&& t.payload@ == s.subrange(tcp_header_len(s), s.len() as int)
}

/// The UDP length field of `s`.
pub open spec fn udp_length(s: Seq<u8>) -> int {
    be16(s, 4)
}

/// The error that decoding `s` as a UDP datagram meets, if any.
pub open spec fn udp_error(s: Seq<u8>) -> Option<Error> {
    if s.len() < UDP_HEADER {
        Some(Error::Incomplete((UDP_HEADER - s.len()) as usize))
    } else if udp_length(s) < UDP_HEADER {
        Some(Error::BadLength(udp_length(s) as u16))
    } else if s.len() < udp_length(s) {
        Some(Error::Incomplete((udp_length(s) - s.len()) as usize))
    } else {
        None
    }
}

/// `u` holds the fields of the UDP datagram `s`; its payload ends where the
/// length field says.
pub open spec fn udp_fields(s: Seq<u8>, u: Udp) -> bool {
    &&& u.src_port == be16(s, 0)
    &&& u.dst_port == be16(s, 2)
    &&& u.length == udp_length(s)
    &&& u.checksum == be16(s, 6)
    &&& u.payload@ == s.subrange(UDP_HEADER as int, udp_length(s))
}

/// Every prefix of a decodable TCP segment that ends inside its header
/// fails as incomplete.
pub proof fn lemma_tcp_prefix_incomplete(s: Seq<u8>, k: int)
    requires
        tcp_error(s) is None,
        0 <= k < tcp_header_len(s),
    ensures
        tcp_error(s.take(k)) matches Some(Error::Incomplete(_)),
{
    let t = s.take(k);
    if k >= TCP_MIN_HEADER {
        assert(t[12] == s[12]);
    }
}

/// Every prefix of a decodable UDP datagram that ends before its declared
/// length fails as incomplete.
pub proof fn lemma_udp_prefix_incomplete(s: Seq<u8>, k: int)
    requires
        udp_error(s) is None,
        0 <= k < udp_length(s),
    ensures
        udp_error(s.take(k)) matches Some(Error::Incomplete(_)),
{
    let t = s.take(k);
    if k >= UDP_HEADER {
        assert(t[4] == s[4] && t[5] == s[5]);
    }
}

impl Tcp {
    /// Decodes a TCP segment; everything after the header is payload.
    pub fn parse(input: &[u8]) -> (r: Result<(&[u8], Tcp), Error>)
        ensures
            match r {
                Ok((rest, t)) => {
                    &&& tcp_error(input@) is None
                    &&& tcp_fields(input@, t)
                    &&& rest@.len() == 0
                    &&& tcp_header_len(input@) + t.payload@.len() == input@.len()
                },
                Err(e) => tcp_error(input@) == Some(e),
            },
    {
        let n = input.len();
        if n < TCP_MIN_HEADER {
            return Err(Error::Incomplete(TCP_MIN_HEADER - n));
        }
        let data_offset = input[12] / 16;
        if data_offset < 5 {
            return Err(Error::BadDataOffset(data_offset));
        }
        let header_len = data_offset as usize * 4;
        if n < header_len {
            return Err(Error::Incomplete(header_len - n));
        }
        let t = Tcp {
            src_port: read_be16(input, 0),
            dst_port: read_be16(input, 2),
            sequence_number: read_be32(input, 4),
            acknowledgement_number: read_be32(input, 8),
            data_offset,
            flags: (input[12] % 16) as u16 * 256 + input[13] as u16,
            window: read_be16(input, 14),
            checksum: read_be16(input, 16),
            urgent_pointer: read_be16(input, 18),
            options: copy_range(input, TCP_MIN_HEADER, header_len),
            payload: copy_range(input, header_len, n),
        };
        Ok((vstd::slice::slice_subrange(input, n, n), t))
    }
}

impl Udp {
    /// Decodes a UDP datagram; bytes after its declared length are returned
    /// as the rest.
    pub fn parse(input: &[u8]) -> (r: Result<(&[u8], Udp), Error>)
        ensures
            match r {
                Ok((rest, u)) => {
                    &&& udp_error(input@) is None
                    &&& udp_fields(input@, u)
                    &&& rest@ == input@.subrange(udp_length(input@), input@.len() as int)
                    &&& UDP_HEADER + u.payload@.len() + rest@.len() == input@.len()
                },
                Err(e) => udp_error(input@) == Some(e),
            },
    {
        let n = input.len();
        if n < UDP_HEADER {
            return Err(Error::Incomplete(UDP_HEADER - n));
        }
        let length = read_be16(input, 4);
        if (length as usize) < UDP_HEADER {
            return Err(Error::BadLength(length));
        }
        if n < length as usize {
            return Err(Error::Incomplete(length as usize - n));
        }
        let u = Udp {
            src_port: read_be16(input, 0),
            dst_port: read_be16(input, 2),
            length,
            checksum: read_be16(input, 6),
            payload: copy_range(input, UDP_HEADER, length as usize),
        };
        Ok((vstd::slice::slice_subrange(input, length as usize, n), u))
    }
}

/// What the flow projection of the layer 4 bytes `s`, carried under `proto`,
/// gives. A UDP datagram shorter than its region leaves bytes behind.
pub open spec fn l4_result(proto: InternetProtocolId, s: Seq<u8>) -> Result<Layer4FlowInfo, Error> {
    match proto {
        InternetProtocolId::Tcp => match tcp_error(s) {
            Some(e) => Err(Error::FlowParse(Box::new(e))),
            None => Ok(Layer4FlowInfo { src_port: be16(s, 0) as u16, dst_port: be16(s, 2) as u16 }),
        },
        InternetProtocolId::Udp => match udp_error(s) {
            Some(e) => Err(Error::FlowParse(Box::new(e))),
            None => if udp_length(s) < s.len() {
                Err(Error::IncompleteParse((s.len() - udp_length(s)) as usize))
            } else {
                Ok(Layer4FlowInfo { src_port: be16(s, 0) as u16, dst_port: be16(s, 2) as u16 })
            },
        },
        _ => Err(Error::UnsupportedL4(proto)),
    }
}

impl Layer4FlowInfo {
    /// Decodes the layer 4 bytes `payload` as `proto` says and keeps the
    /// ports; the decode must use the whole region.
    pub fn from_payload(proto: InternetProtocolId, payload: &[u8]) -> (r: Result<Layer4FlowInfo, Error>)
        ensures
            r == l4_result(proto, payload@),
    {
        match proto {
            InternetProtocolId::Tcp => match Tcp::parse(payload) {
                Err(e) => Err(Error::FlowParse(Box::new(e))),
                Ok((rest, t)) => {
                    if rest.len() > 0 {
                        Err(Error::IncompleteParse(rest.len()))
                    } else {
                        Ok(Layer4FlowInfo::from_tcp(&t))
                    }
                },
            },
            InternetProtocolId::Udp => match Udp::parse(payload) {
                Err(e) => Err(Error::FlowParse(Box::new(e))),
                Ok((rest, u)) => {
                    if rest.len() > 0 {
                        Err(Error::IncompleteParse(rest.len()))
                    } else {
                        Ok(Layer4FlowInfo::from_udp(&u))
                    }
                },
            },
            _ => Err(Error::UnsupportedL4(proto)),
        }
    }

    /// The ports of a TCP segment.
    pub fn from_tcp(t: &Tcp) -> (r: Layer4FlowInfo)
        ensures
            r == (Layer4FlowInfo { src_port: t.src_port, dst_port: t.dst_port }),
    {
        Layer4FlowInfo { src_port: t.src_port, dst_port: t.dst_port }
    }

    /// The ports of a UDP datagram.
    pub fn from_udp(u: &Udp) -> (r: Layer4FlowInfo)
        ensures
            r == (Layer4FlowInfo { src_port: u.src_port, dst_port: u.dst_port }),
    {
        Layer4FlowInfo { src_port: u.src_port, dst_port: u.dst_port }
    }
}

} // verus!
