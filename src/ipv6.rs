use vstd::prelude::*;

use crate::common::{be16, copy_range, read_be16};
use crate::errors::Error;
use crate::layer3::{is_extension, protocol_of, InternetProtocolId, IpAddress};

verus! {

/// Length of the fixed IPv6 header.
pub const IPV6_HEADER: usize = 40;

/// Next-header numbers of the extension headers whose length is not encoded
/// in eight-byte units.
pub const FRAGMENT: u8 = 44;
pub const AUTHENTICATION_HEADER: u8 = 51;

/// A decoded IPv6 packet. `protocol` is the protocol that ends the extension
/// chain and `payload` what follows the last extension header.
pub struct IPv6 {
    pub traffic_class: u8,
    pub flow_label: u32,
    pub payload_length: u16,
    pub protocol: InternetProtocolId,
    pub hop_limit: u8,
    pub src_ip: [u8; 16],
    pub dst_ip: [u8; 16],
    pub payload: Vec<u8>,
}

/// Length of the extension header of kind `nh` at offset `p` of `region`:
/// a Fragment header is eight bytes, an Authentication Header counts
/// four-byte units beyond the first two, the others count eight-byte units
/// beyond the first.
pub open spec fn ext_len(region: Seq<u8>, p: int, nh: u8) -> int {
    if nh == FRAGMENT {
        8
    } else if nh == AUTHENTICATION_HEADER {
        (region[p + 1] as int + 2) * 4
    } else {
        (region[p + 1] as int + 1) * 8
    }
}

/// Walks the extension chain in `region` from offset `p`, where the
/// next-header value `nh` was read. Gives the terminal protocol number and
/// the offset where its data starts, or `None` when a header overruns the
/// region.
pub open spec fn ext_walk(region: Seq<u8>, p: int, nh: u8) -> Option<(u8, int)>
    decreases region.len() - p,
{
    if !is_extension(nh) {
        Some((nh, p))
    } else if p < 0 || p + 2 > region.len() || p + ext_len(region, p, nh) > region.len() {
        None
    } else {
        ext_walk(region, p + ext_len(region, p, nh), region[p])
    }
}

/// The walk never leaves the region and never moves backwards.
pub proof fn lemma_ext_walk_bounds(region: Seq<u8>, p: int, nh: u8)
    requires
        0 <= p <= region.len(),
    ensures
        ext_walk(region, p, nh) matches Some((_, q)) ==> p <= q <= region.len(),
    decreases region.len() - p,
{
    if is_extension(nh) && p + 2 <= region.len() && p + ext_len(region, p, nh) <= region.len() {
        lemma_ext_walk_bounds(region, p + ext_len(region, p, nh), region[p]);
    }
}

/// The payload length field of `s`.
pub open spec fn ipv6_payload_len(s: Seq<u8>) -> int {
    be16(s, 4)
}

/// The bytes that the payload length of `s` covers.
pub open spec fn ipv6_region(s: Seq<u8>) -> Seq<u8> {
    s.subrange(IPV6_HEADER as int, IPV6_HEADER + ipv6_payload_len(s))
}

/// The error that decoding `s` as an IPv6 packet meets, if any.
pub open spec fn ipv6_error(s: Seq<u8>) -> Option<Error> {
    if s.len() >= 1 && s[0] / 16 != 6 {
        Some(Error::BadVersion(s[0] / 16))
    } else if s.len() < IPV6_HEADER {
        Some(Error::Incomplete((IPV6_HEADER - s.len()) as usize))
    } else if s.len() < IPV6_HEADER + ipv6_payload_len(s) {
        Some(Error::Incomplete((IPV6_HEADER + ipv6_payload_len(s) - s.len()) as usize))
    } else if ext_walk(ipv6_region(s), 0, s[6]) is None {
        Some(Error::BadLength(ipv6_payload_len(s) as u16))
    } else {
        None
    }
}

/// Offset in the payload region where the terminal protocol's data starts.
pub open spec fn ipv6_ext_bytes(s: Seq<u8>) -> int {
    ext_walk(ipv6_region(s), 0, s[6]).unwrap().1
}

/// `v` holds the fields of the IPv6 packet `s`.
pub open spec fn ipv6_fields(s: Seq<u8>, v: IPv6) -> bool {
    &&& v.traffic_class == (s[0] % 16) as int * 16 + (s[1] / 16) as int
    &&& v.flow_label == (s[1] % 16) as int * 65536 + be16(s, 2)
    &&& v.payload_length == ipv6_payload_len(s)
    &&& v.protocol == protocol_of(ext_walk(ipv6_region(s), 0, s[6]).unwrap().0)
    &&& v.hop_limit == s[7]
    &&& v.src_ip@ == s.subrange(8, 24)
    &&& v.dst_ip@ == s.subrange(24, 40)
    &&& v.payload@ == ipv6_region(s).subrange(ipv6_ext_bytes(s), ipv6_payload_len(s))
}

/// Copies sixteen bytes at offset `i` into an address.
fn to_ip_address(b: &[u8], i: usize) -> (r: [u8; 16])
    requires
        i + 16 <= b@.len(),
    ensures
        r@ == b@.subrange(i as int, i + 16),
{
    let r = [
        b[i], b[i + 1], b[i + 2], b[i + 3], b[i + 4], b[i + 5], b[i + 6], b[i + 7],
        b[i + 8], b[i + 9], b[i + 10], b[i + 11], b[i + 12], b[i + 13], b[i + 14], b[i + 15],
    ];
    assert(r@ =~= b@.subrange(i as int, i + 16));
    r
}

/// Every prefix of a decodable IPv6 packet that ends before its payload
/// length is covered fails as incomplete.
pub proof fn lemma_ipv6_prefix_incomplete(s: Seq<u8>, k: int)
    requires
        ipv6_error(s) is None,
        0 <= k < IPV6_HEADER + ipv6_payload_len(s),
    ensures
        ipv6_error(s.take(k)) matches Some(Error::Incomplete(_)),
{
    let t = s.take(k);
    if k >= 1 {
        assert(t[0] == s[0]);
    }
    if k >= IPV6_HEADER {
        assert(t[0] == s[0] && t[4] == s[4] && t[5] == s[5]);
        assert(ipv6_payload_len(t) == ipv6_payload_len(s));
    }
}

impl IPv6 {
    pub fn dst_ip(&self) -> (r: IpAddress)
        ensures
            r == IpAddress::V6(self.dst_ip),
    {
        IpAddress::V6(self.dst_ip)
    }

    pub fn src_ip(&self) -> (r: IpAddress)
        ensures
            r == IpAddress::V6(self.src_ip),
    {
        IpAddress::V6(self.src_ip)
    }

    pub fn protocol(&self) -> (r: &InternetProtocolId)
        ensures
            *r == self.protocol,
    {
        &self.protocol
    }

    pub fn payload(&self) -> (r: &Vec<u8>)
        ensures
            r@ == self.payload@,
    {
        &self.payload
    }

    /// A packet with the given addresses, terminal protocol and payload; the
    /// other header fields are zero and the payload length is that of the
    /// payload.
    pub fn new(dst_ip: [u8; 16], src_ip: [u8; 16], protocol: InternetProtocolId, payload: Vec<u8>) -> (r: IPv6)
        requires
            payload@.len() <= u16::MAX,
        ensures
            r.dst_ip == dst_ip,
            r.src_ip == src_ip,
            r.protocol == protocol,
            r.payload@ == payload@,
            r.payload_length == payload@.len(),
            r.traffic_class == 0,
            r.flow_label == 0,
            r.hop_limit == 0,
    {
        let payload_length = payload.len() as u16;
        IPv6 { traffic_class: 0, flow_label: 0, payload_length, protocol, hop_limit: 0, src_ip, dst_ip, payload }
    }
    /// Walks the extension chain of `region` from its start, where the
    /// fixed header's next-header value `first` leads. Returns the terminal
    /// protocol number and the number of bytes the extensions took.
    fn walk_extensions(region: &[u8], first: u8) -> (r: Option<(u8, usize)>)
        ensures
            match r {
                Some((nh, p)) => ext_walk(region@, 0, first) == Some((nh, p as int)),
                None => ext_walk(region@, 0, first) is None,
            },
    {
        let n = region.len();
        let mut p: usize = 0;
        let mut nh: u8 = first;
        while InternetProtocolId::has_next_option(nh)
            invariant
                p <= n,
                n == region@.len(),
                ext_walk(region@, 0, first) == ext_walk(region@, p as int, nh),
            decreases n - p,
        {
            if n - p < 2 {
                return None;
            }
            let len: usize = if nh == FRAGMENT {
                8
            } else if nh == AUTHENTICATION_HEADER {
                (region[p + 1] as usize + 2) * 4
            } else {
                (region[p + 1] as usize + 1) * 8
            };
            if n - p < len {
                return None;
            }
            nh = region[p];
            p = p + len;
        }
        Some((nh, p))
    }

    /// Decodes an IPv6 packet and walks its extension headers; bytes after
    /// the declared payload length are returned as the rest.
    pub fn parse(input: &[u8]) -> (r: Result<(&[u8], IPv6), Error>)
        ensures
            match r {
                Ok((rest, v)) => {
                    &&& ipv6_error(input@) is None
                    &&& ipv6_fields(input@, v)
                    &&& rest@ == input@.subrange(IPV6_HEADER + ipv6_payload_len(input@), input@.len() as int)
                    &&& v.payload@.len() == ipv6_payload_len(input@) - ipv6_ext_bytes(input@)
                    &&& IPV6_HEADER + ipv6_ext_bytes(input@) + v.payload@.len() + rest@.len() == input@.len()
                },
                Err(e) => ipv6_error(input@) == Some(e),
            },
    {
        let n = input.len();
        if n >= 1 && input[0] / 16 != 6 {
            return Err(Error::BadVersion(input[0] / 16));
        }
        if n < IPV6_HEADER {
            return Err(Error::Incomplete(IPV6_HEADER - n));
        }
        let payload_length = read_be16(input, 4);
        let end = IPV6_HEADER + payload_length as usize;
        if n < end {
            return Err(Error::Incomplete(end - n));
        }
        let region = vstd::slice::slice_subrange(input, IPV6_HEADER, end);
        match IPv6::walk_extensions(region, input[6]) {
            None => Err(Error::BadLength(payload_length)),
            Some((nh, p)) => {
                proof {
                    assert(region@ == ipv6_region(input@));
                    lemma_ext_walk_bounds(region@, 0, input@[6]);
                }
                let v = IPv6 {
                    traffic_class: (input[0] % 16) * 16 + input[1] / 16,
                    flow_label: (input[1] % 16) as u32 * 65536 + read_be16(input, 2) as u32,
                    payload_length,
                    protocol: InternetProtocolId::new(nh),
                    hop_limit: input[7],
                    src_ip: to_ip_address(input, 8),
                    dst_ip: to_ip_address(input, 24),
                    payload: copy_range(region, p, payload_length as usize),
                };
                Ok((vstd::slice::slice_subrange(input, end, n), v))
            },
        }
    }
}

} // verus!
