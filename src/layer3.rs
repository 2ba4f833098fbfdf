use vstd::prelude::*;

use crate::common::be16;
use crate::errors::Error;
use crate::ipv4::{lemma_ipv4_prefix_incomplete, ipv4_error, ipv4_header_len, ipv4_total_len, IPv4};
use crate::ipv6::{lemma_ipv6_prefix_incomplete, ext_walk, ipv6_error, ipv6_ext_bytes, ipv6_payload_len, ipv6_region, IPv6, IPV6_HEADER};
use crate::layer2::{EthernetTypeId, Layer3Id};
use crate::layer4::{l4_result, Layer4FlowInfo};

verus! {

/// Protocol numbers found in the IPv4 protocol field and the IPv6
/// next-header fields.
#[derive(Clone, Copy, Debug, PartialEq, Eq, Structural)]
pub enum InternetProtocolId {
    HopByHop,
    Icmp,
    Tcp,
    Udp,
    Routing,
    Fragment,
    EncapsulatingSecurityPayload,
    AuthenticationHeader,
    IcmpV6,
    NoNextHeader,
    DestinationOptions,
    Mobility,
    Other(u8),
}

/// The protocol identified by the number `v`.
pub open spec fn protocol_of(v: u8) -> InternetProtocolId {
    if v == 0 {
        InternetProtocolId::HopByHop
    } else if v == 1 {
        InternetProtocolId::Icmp
    } else if v == 6 {
        InternetProtocolId::Tcp
    } else if v == 17 {
        InternetProtocolId::Udp
    } else if v == 43 {
        InternetProtocolId::Routing
    } else if v == 44 {
        InternetProtocolId::Fragment
    } else if v == 50 {
        InternetProtocolId::EncapsulatingSecurityPayload
    } else if v == 51 {
        InternetProtocolId::AuthenticationHeader
    } else if v == 58 {
        InternetProtocolId::IcmpV6
    } else if v == 59 {
        InternetProtocolId::NoNextHeader
    } else if v == 60 {
        InternetProtocolId::DestinationOptions
    } else if v == 135 {
        InternetProtocolId::Mobility
    } else {
        InternetProtocolId::Other(v)
    }
}

/// IPv6 extension headers that the chain walk steps over. The payload of an
/// Encapsulating Security Payload header is encrypted and its next-header
/// field sits in the encrypted trailer, so the walk stops there.
pub open spec fn is_extension(v: u8) -> bool {
    v == 0 || v == 43 || v == 44 || v == 51 || v == 60 || v == 135
}

impl InternetProtocolId {
    pub fn new(v: u8) -> (r: InternetProtocolId)
        ensures
            r == protocol_of(v),
    {
        match v {
            0 => InternetProtocolId::HopByHop,
            1 => InternetProtocolId::Icmp,
            6 => InternetProtocolId::Tcp,
            17 => InternetProtocolId::Udp,
            43 => InternetProtocolId::Routing,
            44 => InternetProtocolId::Fragment,
            50 => InternetProtocolId::EncapsulatingSecurityPayload,
            51 => InternetProtocolId::AuthenticationHeader,
            58 => InternetProtocolId::IcmpV6,
            59 => InternetProtocolId::NoNextHeader,
            60 => InternetProtocolId::DestinationOptions,
            135 => InternetProtocolId::Mobility,
            x => InternetProtocolId::Other(x),
        }
    }

    /// Whether the number `v` names an IPv6 extension header that the chain
    /// walk steps over.
    pub fn has_next_option(v: u8) -> (r: bool)
        ensures
            r == is_extension(v),
    {
        v == 0 || v == 43 || v == 44 || v == 51 || v == 60 || v == 135
    }
}

/// An IPv4 or IPv6 address, in network byte order.
#[derive(Clone, Copy, Debug, PartialEq, Eq)]
pub enum IpAddress {
    V4([u8; 4]),
    V6([u8; 16]),
}

/// Addresses and ports of one IP packet.
#[derive(Clone, Copy, Debug, PartialEq, Eq)]
pub struct Layer3FlowInfo {
    pub src_ip: IpAddress,
    pub dst_ip: IpAddress,
    pub protocol: InternetProtocolId,
    pub layer4: Layer4FlowInfo,
}

/// `ip` is the IPv4 address with bytes `s`.
pub open spec fn is_v4(ip: IpAddress, s: Seq<u8>) -> bool {
    match ip {
        IpAddress::V4(a) => a@ == s,
        IpAddress::V6(_) => false,
    }
}

/// `ip` is the IPv6 address with bytes `s`.
pub open spec fn is_v6(ip: IpAddress, s: Seq<u8>) -> bool {
    match ip {
        IpAddress::V4(_) => false,
        IpAddress::V6(a) => a@ == s,
    }
}

/// The error that the flow projection of the layer 3 bytes `s`, carried
/// under the EtherType `et`, meets, if any. The packet must fill `s`
/// exactly.
pub open spec fn l3_error(et: EthernetTypeId, s: Seq<u8>) -> Option<Error> {
    match et {
        EthernetTypeId::L3(Layer3Id::IPv4) => match ipv4_error(s) {
            Some(e) => Some(Error::FlowParse(Box::new(e))),
            None => if ipv4_total_len(s) < s.len() {
                Some(Error::IncompleteParse((s.len() - ipv4_total_len(s)) as usize))
            } else {
                match l4_result(protocol_of(s[9]), s.subrange(ipv4_header_len(s), ipv4_total_len(s))) {
                    Err(e) => Some(e),
                    Ok(_) => None,
                }
            },
        },
        EthernetTypeId::L3(Layer3Id::IPv6) => match ipv6_error(s) {
            Some(e) => Some(Error::FlowParse(Box::new(e))),
            None => if IPV6_HEADER + ipv6_payload_len(s) < s.len() {
                Some(Error::IncompleteParse((s.len() - IPV6_HEADER - ipv6_payload_len(s)) as usize))
            } else {
                match l4_result(ipv6_protocol(s), ipv6_l4_bytes(s)) {
                    Err(e) => Some(e),
                    Ok(_) => None,
                }
            },
        },
        EthernetTypeId::Unknown(v) => Some(Error::UnknownEtherType(v)),
        _ => Some(Error::UnsupportedL3(et)),
    }
}

/// The protocol that ends the extension chain of the IPv6 packet `s`.
pub open spec fn ipv6_protocol(s: Seq<u8>) -> InternetProtocolId {
    protocol_of(ext_walk(ipv6_region(s), 0, s[6]).unwrap().0)
}

/// The bytes after the extension headers of the IPv6 packet `s`.
pub open spec fn ipv6_l4_bytes(s: Seq<u8>) -> Seq<u8> {
    ipv6_region(s).subrange(ipv6_ext_bytes(s), ipv6_payload_len(s))
}

/// `i` holds the addresses, protocol and ports of the layer 3 bytes `s`
/// carried under `et`.
pub open spec fn l3_fields(et: EthernetTypeId, s: Seq<u8>, i: Layer3FlowInfo) -> bool {
    match et {
        EthernetTypeId::L3(Layer3Id::IPv4) => {
            &&& l4_result(protocol_of(s[9]), s.subrange(ipv4_header_len(s), ipv4_total_len(s)))
                == Ok::<Layer4FlowInfo, Error>(i.layer4)
            &&& i.protocol == protocol_of(s[9])
            &&& is_v4(i.src_ip, s.subrange(12, 16))
            &&& is_v4(i.dst_ip, s.subrange(16, 20))
        },
        EthernetTypeId::L3(Layer3Id::IPv6) => {
            &&& l4_result(ipv6_protocol(s), ipv6_l4_bytes(s)) == Ok::<Layer4FlowInfo, Error>(i.layer4)
            &&& i.protocol == ipv6_protocol(s)
            &&& is_v6(i.src_ip, s.subrange(8, 24))
            &&& is_v6(i.dst_ip, s.subrange(24, 40))
        },
        _ => false,
    }
}

/// `r` is what the flow projection of the layer 3 bytes `s`, carried under
/// the EtherType `et`, gives.
pub open spec fn l3_flow(et: EthernetTypeId, s: Seq<u8>, r: Result<Layer3FlowInfo, Error>) -> bool {
    match r {
        Ok(i) => l3_error(et, s) is None && l3_fields(et, s, i),
        Err(e) => l3_error(et, s) == Some(e),
    }
}

/// One byte appended to an IP packet that projects onto a flow makes the
/// projection fail, naming the one byte left over.
pub proof fn lemma_extra_byte_residue(et: EthernetTypeId, s: Seq<u8>, b: u8)
    requires
        l3_error(et, s) is None,
    ensures
        l3_error(et, s.push(b)) == Some(Error::IncompleteParse(1)),
{
    let t = s.push(b);
    if et == EthernetTypeId::L3(Layer3Id::IPv4) {
        assert(t[0] == s[0] && t[2] == s[2] && t[3] == s[3]);
        assert(be16(t, 2) == be16(s, 2));
    } else {
        assert(t[0] == s[0] && t[4] == s[4] && t[5] == s[5] && t[6] == s[6]);
        assert(be16(t, 4) == be16(s, 4));
        assert(ipv6_region(t) =~= ipv6_region(s));
    }
}

/// Cutting an IP packet that projects onto a flow anywhere before its end
/// makes the projection fail on an incomplete packet.
pub proof fn lemma_l3_prefix_incomplete(et: EthernetTypeId, s: Seq<u8>, k: int)
    requires
        l3_error(et, s) is None,
        0 <= k < s.len(),
    ensures
        l3_error(et, s.take(k)) matches Some(Error::FlowParse(c)) && *c is Incomplete,
{
    if et == EthernetTypeId::L3(Layer3Id::IPv4) {
        lemma_ipv4_prefix_incomplete(s, k);
    } else {
        lemma_ipv6_prefix_incomplete(s, k);
    }
}

impl Layer3FlowInfo {
    /// The addresses of an IPv4 packet and the ports of what it carries.
    pub fn from_ipv4(v: &IPv4) -> (r: Result<Layer3FlowInfo, Error>)
        ensures
            match r {
                Ok(i) => {
                    &&& l4_result(v.protocol, v.payload@) == Ok::<Layer4FlowInfo, Error>(i.layer4)
                    &&& i.src_ip == IpAddress::V4(v.src_ip)
                    &&& i.dst_ip == IpAddress::V4(v.dst_ip)
                    &&& i.protocol == v.protocol
                },
                Err(e) => l4_result(v.protocol, v.payload@) == Err::<Layer4FlowInfo, Error>(e),
            },
    {
        let layer4 = Layer4FlowInfo::from_payload(v.protocol, v.payload.as_slice())?;
        Ok(Layer3FlowInfo {
            src_ip: IpAddress::V4(v.src_ip),
            dst_ip: IpAddress::V4(v.dst_ip),
            protocol: v.protocol,
            layer4,
        })
    }

    /// The addresses of an IPv6 packet and the ports of what it carries.
    pub fn from_ipv6(v: &IPv6) -> (r: Result<Layer3FlowInfo, Error>)
        ensures
            match r {
                Ok(i) => {
                    &&& l4_result(v.protocol, v.payload@) == Ok::<Layer4FlowInfo, Error>(i.layer4)
                    &&& i.src_ip == IpAddress::V6(v.src_ip)
                    &&& i.dst_ip == IpAddress::V6(v.dst_ip)
                    &&& i.protocol == v.protocol
                },
                Err(e) => l4_result(v.protocol, v.payload@) == Err::<Layer4FlowInfo, Error>(e),
            },
    {
        let layer4 = Layer4FlowInfo::from_payload(v.protocol, v.payload.as_slice())?;
        Ok(Layer3FlowInfo {
            src_ip: IpAddress::V6(v.src_ip),
            dst_ip: IpAddress::V6(v.dst_ip),
            protocol: v.protocol,
            layer4,
        })
    }

    /// Decodes the layer 3 bytes `payload` as the EtherType `et` says and
    /// projects them; the packet must fill `payload` exactly.
    pub fn from_payload(et: EthernetTypeId, payload: &[u8]) -> (r: Result<Layer3FlowInfo, Error>)
        ensures
            l3_flow(et, payload@, r),
    {
        match et {
            EthernetTypeId::L3(Layer3Id::IPv4) => match IPv4::parse(payload) {
                Err(e) => Err(Error::FlowParse(Box::new(e))),
                Ok((rest, v)) => {
                    if rest.len() > 0 {
                        Err(Error::IncompleteParse(rest.len()))
                    } else {
                        Layer3FlowInfo::from_ipv4(&v)
                    }
                },
            },
            EthernetTypeId::L3(Layer3Id::IPv6) => match IPv6::parse(payload) {
                Err(e) => Err(Error::FlowParse(Box::new(e))),
                Ok((rest, v)) => {
                    if rest.len() > 0 {
                        Err(Error::IncompleteParse(rest.len()))
                    } else {
                        Layer3FlowInfo::from_ipv6(&v)
                    }
                },
            },
            EthernetTypeId::Unknown(v) => Err(Error::UnknownEtherType(v)),
            _ => Err(Error::UnsupportedL3(et)),
        }
    }
}

} // verus!
