use net_parser_rs::errors::Error;
use net_parser_rs::ipv4::IPv4;
use net_parser_rs::layer3::InternetProtocolId;
use net_parser_rs::layer4::{Layer4FlowInfo, Tcp, Udp};

const TCP: &[u8] = &[
    0xC6, 0xB7, 0x00, 0x50, 0x00, 0x00, 0x00, 0x01, 0x00, 0x00, 0x00, 0x02, 0x60, 0x12, 0x01, 0x02,
    0x03, 0x04, 0x05, 0x06, // header, data offset 6
    0xAA, 0xBB, 0xCC, 0xDD, // options
    0x01, 0x02, // payload
];

const UDP: &[u8] = &[0x00, 0x35, 0x04, 0x00, 0x00, 0x0a, 0x12, 0x34, 0xde, 0xad];

fn ipv4(protocol: u8, body: &[u8]) -> Vec<u8> {
    let total = 20 + body.len() as u16;
    let mut v = vec![0x45, 0, (total >> 8) as u8, total as u8, 0, 1, 0x40, 0, 64, protocol, 0, 0, 192, 168, 0, 1, 192, 168, 0, 2];
    v.extend_from_slice(body);
    v
}

#[test]
fn tcp_fields() {
    let (rest, t) = Tcp::parse(TCP).expect("parse");
    assert!(rest.is_empty());
    assert_eq!(t.src_port, 50871);
    assert_eq!(t.dst_port, 80);
    assert_eq!(t.sequence_number, 1);
    assert_eq!(t.acknowledgement_number, 2);
    assert_eq!(t.data_offset, 6);
    assert_eq!(t.flags, 0x012);
    assert_eq!(t.window, 0x0102);
    assert_eq!(t.checksum, 0x0304);
    assert_eq!(t.urgent_pointer, 0x0506);
    assert_eq!(t.options, vec![0xAA, 0xBB, 0xCC, 0xDD]);
    assert_eq!(t.payload, vec![0x01, 0x02]);
}

#[test]
fn tcp_errors() {
    assert!(matches!(Tcp::parse(&TCP[..19]), Err(Error::Incomplete(1))));
    assert!(matches!(Tcp::parse(&TCP[..22]), Err(Error::Incomplete(2))));
    let mut v = TCP.to_vec();
    v[12] = 0x40;
    assert!(matches!(Tcp::parse(&v), Err(Error::BadDataOffset(4))));
}

#[test]
fn udp_fields_and_rest() {
    let mut v = UDP.to_vec();
    v.push(0x77);
    let (rest, u) = Udp::parse(&v).expect("parse");
    assert_eq!(rest, &[0x77u8][..]);
    assert_eq!(u.src_port, 53);
    assert_eq!(u.dst_port, 1024);
    assert_eq!(u.length, 10);
    assert_eq!(u.checksum, 0x1234);
    assert_eq!(u.payload, vec![0xde, 0xad]);
}

#[test]
fn udp_errors() {
    assert!(matches!(Udp::parse(&UDP[..5]), Err(Error::Incomplete(3))));
    assert!(matches!(Udp::parse(&UDP[..9]), Err(Error::Incomplete(1))));
    let mut v = UDP.to_vec();
    v[5] = 7;
    assert!(matches!(Udp::parse(&v), Err(Error::BadLength(7))));
}

#[test]
fn ipv4_fields_and_errors() {
    let p = ipv4(17, UDP);
    let (rest, v) = IPv4::parse(&p).expect("parse");
    assert!(rest.is_empty());
    assert_eq!(v.version, 4);
    assert_eq!(v.ihl, 5);
    assert_eq!(v.length, 30);
    assert_eq!(v.id, 1);
    assert_eq!(v.flags, 0x4000);
    assert_eq!(v.ttl, 64);
    assert_eq!(v.protocol, InternetProtocolId::Udp);
    assert_eq!(v.src_ip, [192, 168, 0, 1]);
    assert_eq!(v.dst_ip, [192, 168, 0, 2]);
    assert!(v.options.is_empty());
    assert_eq!(v.payload, UDP.to_vec());

    assert!(matches!(IPv4::parse(&p[..12]), Err(Error::Incomplete(8))));
    assert!(matches!(IPv4::parse(&p[..25]), Err(Error::Incomplete(5))));
    let mut bad = p.clone();
    bad[0] = 0x65;
    assert!(matches!(IPv4::parse(&bad), Err(Error::BadVersion(6))));
    assert!(matches!(IPv4::parse(&[0x65]), Err(Error::BadVersion(6))));
    let mut bad = p.clone();
    bad[0] = 0x44;
    assert!(matches!(IPv4::parse(&bad), Err(Error::BadHeaderLength(4))));
    let mut bad = p.clone();
    bad[3] = 10;
    assert!(matches!(IPv4::parse(&bad), Err(Error::BadLength(10))));
}

#[test]
fn ipv4_total_length_trims_trailer() {
    let mut p = ipv4(6, &TCP[..20]);
    p.extend_from_slice(&[0, 0, 0]);
    let (rest, v) = IPv4::parse(&p).expect("parse");
    assert_eq!(rest.len(), 3);
    assert_eq!(v.payload.len(), 20);
}

#[test]
fn layer4_projection() {
    let info = Layer4FlowInfo::from_payload(InternetProtocolId::Udp, UDP).expect("udp");
    assert_eq!(info, Layer4FlowInfo { src_port: 53, dst_port: 1024 });
    let mut v = UDP.to_vec();
    v.push(0);
    assert!(matches!(Layer4FlowInfo::from_payload(InternetProtocolId::Udp, &v), Err(Error::IncompleteParse(1))));
    assert!(matches!(
        Layer4FlowInfo::from_payload(InternetProtocolId::Icmp, UDP),
        Err(Error::UnsupportedL4(InternetProtocolId::Icmp))
    ));
    match Layer4FlowInfo::from_payload(InternetProtocolId::Tcp, &TCP[..10]) {
        Err(Error::FlowParse(cause)) => assert!(matches!(*cause, Error::Incomplete(10))),
        _ => panic!("expected a wrapped error"),
    }
}

#[test]
fn protocol_numbers() {
    assert_eq!(InternetProtocolId::new(6), InternetProtocolId::Tcp);
    assert_eq!(InternetProtocolId::new(17), InternetProtocolId::Udp);
    assert_eq!(InternetProtocolId::new(44), InternetProtocolId::Fragment);
    assert_eq!(InternetProtocolId::new(200), InternetProtocolId::Other(200));
    assert!(InternetProtocolId::has_next_option(0));
    assert!(InternetProtocolId::has_next_option(60));
    assert!(!InternetProtocolId::has_next_option(6));
    assert!(!InternetProtocolId::has_next_option(50));
}
