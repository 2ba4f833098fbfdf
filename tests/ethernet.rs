use net_parser_rs::errors::Error;
use net_parser_rs::layer2::{Ethernet, EthernetTypeId, Layer2FlowInfo, Layer3Id, VlanTypeId};
use net_parser_rs::layer3::{InternetProtocolId, IpAddress};

const PAYLOAD_RAW_DATA: &[u8] = &[
    0x01, 0x02, 0x03, 0x04, 0x05, 0x06, //dst mac 01:02:03:04:05:06
    0xFF, 0xFE, 0xFD, 0xFC, 0xFB, 0xFA, //src mac FF:FE:FD:FC:FB:FA
    0x00, 0x04, //payload ethernet
    //payload
    0x01, 0x02, 0x03, 0x04,
];

const TCP_RAW_DATA: &[u8] = &[
    0x01, 0x02, 0x03, 0x04, 0x05, 0x06, //dst mac 01:02:03:04:05:06
    0xFF, 0xFE, 0xFD, 0xFC, 0xFB, 0xFA, //src mac FF:FE:FD:FC:FB:FA
    0x08, 0x00, //ipv4
    //ipv4
    0x45, //version and header length
    0x00, //tos
    0x00, 0x48, //length, 20 bytes for header, 52 bytes for ethernet
    0x00, 0x00, //id
    0x00, 0x00, //flags
    0x64, //ttl
    0x06, //protocol, tcp
    0x00, 0x00, //checksum
    0x01, 0x02, 0x03, 0x04, //src ip 1.2.3.4
    0x0A, 0x0B, 0x0C, 0x0D, //dst ip 10.11.12.13
    //tcp
    0xC6, 0xB7, //src port, 50871
    0x00, 0x50, //dst port, 80
    0x00, 0x00, 0x00, 0x01, //sequence number, 1
    0x00, 0x00, 0x00, 0x02, //acknowledgement number, 2
    0x50, 0x00, //header and flags, 0
    0x00, 0x00, //window
    0x00, 0x00, //check
    0x00, 0x00, //urgent
    //no options
    //payload
    0x01, 0x02, 0x03, 0x04,
    0x00, 0x00, 0x00, 0x00,
    0x00, 0x00, 0x00, 0x00,
    0x00, 0x00, 0x00, 0x00,
    0x00, 0x00, 0x00, 0x00,
    0x00, 0x00, 0x00, 0x00,
    0x00, 0x00, 0x00, 0x00,
    0xfc, 0xfd, 0xfe, 0xff, //payload, 8 words
];

/// The TCP frame with VLAN tags inserted after the MAC addresses: each tag
/// is its 2-byte type followed by a 4-byte value whose first two bytes are
/// the given TCI.
fn with_vlans(tags: &[(u16, u16)]) -> Vec<u8> {
    let mut v = TCP_RAW_DATA[..12].to_vec();
    for (tpid, tci) in tags {
        v.extend_from_slice(&tpid.to_be_bytes());
        v.extend_from_slice(&tci.to_be_bytes());
        v.extend_from_slice(&[0x00, 0x00]);
    }
    v.extend_from_slice(&TCP_RAW_DATA[12..]);
    v
}

#[test]
fn parse_ethernet_payload() {
    let (rem, l2) = Ethernet::parse(PAYLOAD_RAW_DATA).expect("Could not parse");

    assert!(rem.is_empty());
    assert_eq!(l2.dst_mac().0, [0x01u8, 0x02u8, 0x03u8, 0x04u8, 0x05u8, 0x06u8]);
    assert_eq!(l2.src_mac().0, [0xFFu8, 0xFEu8, 0xFDu8, 0xFCu8, 0xFBu8, 0xFAu8]);
    assert!(l2.vlans().is_empty());

    let proto_correct = if let EthernetTypeId::PayloadLength(_) = l2.ether_type() {
        true
    } else {
        false
    };

    assert!(proto_correct);
}

#[test]
fn parse_ethernet_tcp() {
    let (rem, l2) = Ethernet::parse(TCP_RAW_DATA).expect("Could not parse");

    assert!(rem.is_empty());
    assert_eq!(l2.dst_mac().0, [0x01u8, 0x02u8, 0x03u8, 0x04u8, 0x05u8, 0x06u8]);
    assert_eq!(l2.src_mac().0, [0xFFu8, 0xFEu8, 0xFDu8, 0xFCu8, 0xFBu8, 0xFAu8]);
    assert!(l2.vlans().is_empty());

    let proto_correct = if let EthernetTypeId::L3(Layer3Id::IPv4) = l2.ether_type() {
        true
    } else {
        false
    };

    assert!(proto_correct);
}

#[test]
fn convert_ethernet_tcp() {
    let (rem, l2) = Ethernet::parse(TCP_RAW_DATA).expect("Could not parse");

    assert!(rem.is_empty());

    let info = Layer2FlowInfo::from_ethernet(&l2).expect("Could not convert to layer 2 flow info");

    assert_eq!(info.layer3.layer4.src_port, 50871);
    assert_eq!(info.layer3.layer4.dst_port, 80);
}

#[test]
fn test_single_vlan() {
    let data = with_vlans(&[(0x8100, 0x2064)]);
    let (rem, l2) = Ethernet::parse(&data).expect("Could not parse");

    assert!(rem.is_empty());
    assert_eq!(l2.vlans().len(), 1);
    assert_eq!(l2.vlans()[0].vlan_type, VlanTypeId::VlanTagId);
    assert_eq!(l2.vlans()[0].vlan(), 0x064);
    assert_eq!(l2.vlan(), 0x064);
    assert_eq!(*l2.ether_type(), EthernetTypeId::L3(Layer3Id::IPv4));
    assert_eq!(l2.payload().len(), 72);
}

#[test]
fn test_multiple_vlans() {
    let data = with_vlans(&[(0x88a8, 0x0123), (0x8100, 0xf456)]);
    let (rem, l2) = Ethernet::parse(&data).expect("Could not parse");

    assert!(rem.is_empty());
    assert_eq!(l2.vlans().len(), 2);
    assert_eq!(l2.vlans()[0].vlan_type, VlanTypeId::ProviderBridging);
    assert_eq!(l2.vlans()[1].vlan_type, VlanTypeId::VlanTagId);
    assert_eq!(l2.vlans()[0].vlan(), 0x123);
    assert_eq!(l2.vlans()[1].vlan(), 0x456);
    assert_eq!(l2.vlan(), 0x123);
    assert_eq!(*l2.ether_type(), EthernetTypeId::L3(Layer3Id::IPv4));

    let info = Layer2FlowInfo::from_ethernet(&l2).expect("Could not convert to layer 2 flow info");
    assert_eq!(info.vlan, 0x123);
    assert_eq!(info.layer3.layer4.src_port, 50871);
}

#[test]
fn three_stacked_vlans_in_order() {
    for n in 0..4usize {
        let tags: Vec<(u16, u16)> = (0..n).map(|i| (if i % 2 == 0 { 0x88a8 } else { 0x8100 }, 10 + i as u16)).collect();
        let data = with_vlans(&tags);
        let (_, l2) = Ethernet::parse(&data).expect("Could not parse");
        assert_eq!(l2.vlans().len(), n);
        for (i, tag) in l2.vlans().iter().enumerate() {
            assert_eq!(tag.vlan(), 10 + i as u16);
        }
        assert_eq!(l2.vlan(), if n > 0 { 10 } else { 0 });
        assert_eq!(l2.payload().len(), 72);
    }
}

#[test]
fn stacked_tags_take_six_bytes_each() {
    // S-VLAN then C-VLAN, tag values 00 01 00 00 and 00 02 00 00, then IPv4
    let mut data = TCP_RAW_DATA[..12].to_vec();
    data.extend_from_slice(&[0x88, 0xa8, 0x00, 0x01, 0x00, 0x00]);
    data.extend_from_slice(&[0x81, 0x00, 0x00, 0x02, 0x00, 0x00]);
    data.extend_from_slice(&TCP_RAW_DATA[12..]);
    let (rem, l2) = Ethernet::parse(&data).expect("Could not parse");
    assert!(rem.is_empty());
    assert_eq!(l2.vlans().len(), 2);
    assert_eq!(l2.vlans()[0].vlan_type, VlanTypeId::ProviderBridging);
    assert_eq!(l2.vlans()[0].value, [0x00, 0x01, 0x00, 0x00]);
    assert_eq!(l2.vlans()[1].vlan_type, VlanTypeId::VlanTagId);
    assert_eq!(l2.vlans()[1].value, [0x00, 0x02, 0x00, 0x00]);
    assert_eq!(*l2.ether_type(), EthernetTypeId::L3(Layer3Id::IPv4));
    assert_eq!(12 + 6 * 2 + 2 + l2.payload().len(), data.len());
    assert_eq!(l2.payload().as_slice(), &TCP_RAW_DATA[14..]);
}

#[test]
fn payload_length_frame_keeps_its_bytes() {
    let (_, l2) = Ethernet::parse(PAYLOAD_RAW_DATA).expect("Could not parse");
    assert_eq!(*l2.ether_type(), EthernetTypeId::PayloadLength(4));
    assert!(l2.vlans().is_empty());
    assert_eq!(l2.payload().as_slice(), &[0x01u8, 0x02, 0x03, 0x04][..]);
}

#[test]
fn ether_type_classification() {
    assert_eq!(EthernetTypeId::new(0x8100), EthernetTypeId::Vlan(VlanTypeId::VlanTagId));
    assert_eq!(EthernetTypeId::new(0x88a8), EthernetTypeId::Vlan(VlanTypeId::ProviderBridging));
    assert_eq!(EthernetTypeId::new(0x0800), EthernetTypeId::L3(Layer3Id::IPv4));
    assert_eq!(EthernetTypeId::new(0x86dd), EthernetTypeId::L3(Layer3Id::IPv6));
    assert_eq!(EthernetTypeId::new(0x0806), EthernetTypeId::L3(Layer3Id::Arp));
    assert_eq!(EthernetTypeId::new(0x88cc), EthernetTypeId::L3(Layer3Id::Lldp));
    assert_eq!(EthernetTypeId::new(1500), EthernetTypeId::PayloadLength(1500));
    assert_eq!(EthernetTypeId::new(1501), EthernetTypeId::Unknown(1501));
}

#[test]
fn short_frame_is_incomplete() {
    assert!(matches!(Ethernet::parse(&TCP_RAW_DATA[..10]), Err(Error::Incomplete(4))));
    let data = with_vlans(&[(0x8100, 1)]);
    assert!(matches!(Ethernet::parse(&data[..15]), Err(Error::Incomplete(3))));
    assert!(matches!(Ethernet::parse(&data[..18]), Err(Error::Incomplete(2))));
    for k in 0..20 {
        assert!(matches!(Ethernet::parse(&data[..k]), Err(Error::Incomplete(_))));
    }
}

#[test]
fn unknown_ether_type_gives_no_flow() {
    let mut data = TCP_RAW_DATA.to_vec();
    data[12] = 0x12;
    data[13] = 0x34;
    let (_, l2) = Ethernet::parse(&data).expect("Could not parse");
    assert_eq!(*l2.ether_type(), EthernetTypeId::Unknown(0x1234));
    assert!(matches!(Layer2FlowInfo::from_ethernet(&l2), Err(Error::UnknownEtherType(0x1234))));
    let (_, l2) = Ethernet::parse(PAYLOAD_RAW_DATA).expect("Could not parse");
    assert!(matches!(
        Layer2FlowInfo::from_ethernet(&l2),
        Err(Error::UnsupportedL3(EthernetTypeId::PayloadLength(4)))
    ));
}

#[test]
fn extra_byte_after_ip_packet_is_incomplete_parse() {
    let mut data = TCP_RAW_DATA.to_vec();
    data.push(0);
    let (_, l2) = Ethernet::parse(&data).expect("Could not parse");
    assert!(matches!(Layer2FlowInfo::from_ethernet(&l2), Err(Error::IncompleteParse(1))));
}

#[test]
fn ipv4_addresses_in_flow() {
    let (_, l2) = Ethernet::parse(TCP_RAW_DATA).expect("Could not parse");
    let info = Layer2FlowInfo::from_ethernet(&l2).expect("Could not convert");
    assert_eq!(info.layer3.src_ip, IpAddress::V4([1, 2, 3, 4]));
    assert_eq!(info.layer3.dst_ip, IpAddress::V4([10, 11, 12, 13]));
    assert_eq!(info.layer3.protocol, InternetProtocolId::Tcp);
    assert_eq!(info.src_mac.0, [0xFF, 0xFE, 0xFD, 0xFC, 0xFB, 0xFA]);
    assert_eq!(info.vlan, 0);
}
