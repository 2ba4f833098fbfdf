use net_parser_rs::errors::Error;
use net_parser_rs::ipv6::IPv6;
use net_parser_rs::layer2::{EthernetTypeId, Layer3Id};
use net_parser_rs::layer3::{InternetProtocolId, IpAddress, Layer3FlowInfo};

const RAW_DATA: &[u8] = &[
    0x65, //version and header length
    0x00, 0x00, 0x00, //traffic class and label
    0x00, 0x34, //payload length
    0x06, //next hop, protocol, tcp
    0x00, //hop limit
    0x01, 0x02, 0x03, 0x04, 0x05, 0x06, 0x07, 0x08, 0x09, 0x0A, 0x0B, 0x0C, 0x0D, 0x0E, 0x0F, 0x0F, //src ip
    0x0F, 0x00, 0x01, 0x02, 0x03, 0x04, 0x05, 0x06, 0x07, 0x08, 0x09, 0x0A, 0x0B, 0x0C, 0x0D, 0x0E, //dst ip
    //tcp
    0xC6, 0xB7, //src port, 50871
    0x00, 0x50, //dst port, 80
    0x00, 0x00, 0x00, 0x01, //sequence number, 1
    0x00, 0x00, 0x00, 0x02, //acknowledgement number, 2
    0x50, 0x00, //header and flags, 0
    0x00, 0x00, //window
    0x00, 0x00, //check
    0x00, 0x00, //urgent
    //no options
    //payload
    0x01, 0x02, 0x03, 0x04,
    0x00, 0x00, 0x00, 0x00,
    0x00, 0x00, 0x00, 0x00,
    0x00, 0x00, 0x00, 0x00,
    0x00, 0x00, 0x00, 0x00,
    0x00, 0x00, 0x00, 0x00,
    0x00, 0x00, 0x00, 0x00,
    0xfc, 0xfd, 0xfe, 0xff, //payload, 8 words
];

/// 102:304:506:708:90A:B0C:D0E:F0F
const SRC: [u8; 16] = [1, 2, 3, 4, 5, 6, 7, 8, 9, 10, 11, 12, 13, 14, 15, 15];
/// F00:102:304:506:708:90A:B0C:D0E
const DST: [u8; 16] = [15, 0, 1, 2, 3, 4, 5, 6, 7, 8, 9, 10, 11, 12, 13, 14];

/// The packet with the given extension headers between the fixed header and
/// the TCP segment; `first` is the fixed header's next-header value.
fn with_extensions(first: u8, exts: &[Vec<u8>]) -> Vec<u8> {
    let mut v = RAW_DATA.to_vec();
    let extra: usize = exts.iter().map(|e| e.len()).sum();
    let len = 0x34 + extra as u16;
    v[4] = (len >> 8) as u8;
    v[5] = len as u8;
    v[6] = first;
    let mut out = v[..40].to_vec();
    for e in exts {
        out.extend_from_slice(e);
    }
    out.extend_from_slice(&v[40..]);
    out
}

#[test]
fn parse_ipv6() {
    let (rem, l3) = IPv6::parse(RAW_DATA).expect("Unable to parse");

    assert_eq!(l3.src_ip, SRC);
    assert_eq!(l3.dst_ip, DST);

    let is_tcp = if let InternetProtocolId::Tcp = l3.protocol {
        true
    } else {
        false
    };

    assert!(is_tcp);

    assert!(rem.is_empty());
}

#[test]
fn convert_ipv6() {
    let (_rem, l3) = IPv6::parse(RAW_DATA).expect("Unable to parse");

    let info = Layer3FlowInfo::from_ipv6(&l3).expect("Could not convert to layer 3 info");

    assert_eq!(info.src_ip, IpAddress::V6(SRC));
    assert_eq!(info.dst_ip, IpAddress::V6(DST));
    assert_eq!(info.layer4.src_port, 50871);
    assert_eq!(info.layer4.dst_port, 80);
}

#[test]
fn ipv6_extension_chain_is_walked() {
    // hop-by-hop (8 bytes), then routing with one extra unit (16 bytes),
    // then a fragment header (8 bytes), then TCP
    let hop = vec![43, 0, 0, 0, 0, 0, 0, 0];
    let mut routing = vec![44, 1];
    routing.extend_from_slice(&[0; 14]);
    let fragment = vec![6, 0, 0, 0, 0, 0, 0, 0];
    let data = with_extensions(0, &[hop, routing, fragment]);
    let (rem, l3) = IPv6::parse(&data).expect("Unable to parse");
    assert!(rem.is_empty());
    assert_eq!(l3.protocol, InternetProtocolId::Tcp);
    assert_eq!(l3.payload_length, 0x34 + 32);
    assert_eq!(l3.payload.len(), 0x34);
    let info = Layer3FlowInfo::from_ipv6(&l3).expect("Could not convert");
    assert_eq!(info.layer4.src_port, 50871);
    assert_eq!(info.layer4.dst_port, 80);
}

#[test]
fn ipv6_authentication_header_length() {
    // AH with payload length 1: (1 + 2) * 4 = 12 bytes
    let mut ah = vec![6, 1];
    ah.extend_from_slice(&[0; 10]);
    let data = with_extensions(51, &[ah]);
    let (_, l3) = IPv6::parse(&data).expect("Unable to parse");
    assert_eq!(l3.protocol, InternetProtocolId::Tcp);
    assert_eq!(l3.payload.len(), 0x34);
}

#[test]
fn ipv6_extension_overrun_is_bad_length() {
    // destination options claiming 8 extra units inside a short region
    let dst_opts = vec![6, 8, 0, 0, 0, 0, 0, 0];
    let mut data = with_extensions(60, &[dst_opts]);
    data[4] = 0;
    data[5] = 8;
    data.truncate(48);
    assert!(matches!(IPv6::parse(&data), Err(Error::BadLength(8))));
}

#[test]
fn ipv6_errors() {
    assert!(matches!(IPv6::parse(&RAW_DATA[..39]), Err(Error::Incomplete(1))));
    assert!(matches!(IPv6::parse(&RAW_DATA[..50]), Err(Error::Incomplete(42))));
    let mut v = RAW_DATA.to_vec();
    v[0] = 0x45;
    assert!(matches!(IPv6::parse(&v), Err(Error::BadVersion(4))));
    assert!(matches!(IPv6::parse(&[0x45]), Err(Error::BadVersion(4))));
    assert!(matches!(IPv6::parse(&[]), Err(Error::Incomplete(40))));
}

#[test]
fn ipv6_fixed_header_fields() {
    let mut v = RAW_DATA.to_vec();
    v[0] = 0x6a;
    v[1] = 0xbc;
    v[2] = 0xde;
    v[3] = 0xf1;
    v[7] = 64;
    let (_, l3) = IPv6::parse(&v).expect("Unable to parse");
    assert_eq!(l3.traffic_class, 0xab);
    assert_eq!(l3.flow_label, 0xcdef1);
    assert_eq!(l3.hop_limit, 64);
}

#[test]
fn ipv6_flow_through_payload() {
    let info = Layer3FlowInfo::from_payload(EthernetTypeId::L3(Layer3Id::IPv6), RAW_DATA).expect("Could not convert");
    assert_eq!(info.src_ip, IpAddress::V6(SRC));
    let mut v = RAW_DATA.to_vec();
    v.push(7);
    assert!(matches!(
        Layer3FlowInfo::from_payload(EthernetTypeId::L3(Layer3Id::IPv6), &v),
        Err(Error::IncompleteParse(1))
    ));
}
