use rnet::addr::hardware::HardwareAddress;
use rnet::addr::protocol::ProtocolAddress;
use rnet::addr::text::AddressFormatError;
use rnet::l2::arp::{ArpHdr, ArpOp, ArpPayload, Htype, Ptype};
use rnet::l2::ether::{EtherHdr, EtherType};
use rnet::l3::ip::{IpProtocol, IpVersion};
use rnet::l3::ipv4::IPv4;
use rnet::l4::udp::Udp;

#[test]
fn qwe() {
    let asd = IPv4::new(
        ProtocolAddress::parse("127.0.0.1").unwrap(),
        ProtocolAddress::parse("127.0.0.2").unwrap(),
        IpProtocol::UDP,
    );

    println!("{:x?}", asd.to_bytes());
}

#[test]
fn ether_header_bytes() {
    let hdr = EtherHdr::from_str("aa:bb:cc:dd:ee:ff", "11:22:33:44:55:66", EtherType::ARP).unwrap();
    assert_eq!(
        &[0xaa, 0xbb, 0xcc, 0xdd, 0xee, 0xff, 0x11, 0x22, 0x33, 0x44, 0x55, 0x66, 0x08, 0x06][..],
        &hdr.to_bytes()[..]
    );
}

#[test]
fn ether_types_have_their_assigned_numbers() {
    assert_eq!(0x0800, EtherType::IPv4.code());
    assert_eq!(0x86dd, EtherType::IPv6.code());
    assert_eq!(0x0806, EtherType::ARP.code());
    for (ty, tail) in [
        (EtherType::IPv4, [0x08, 0x00]),
        (EtherType::IPv6, [0x86, 0xdd]),
        (EtherType::ARP, [0x08, 0x06]),
    ] {
        let bytes = EtherHdr::from_str("00-00-00-00-00-01", "00-00-00-00-00-02", ty).unwrap().to_bytes();
        assert_eq!(14, bytes.len());
        assert_eq!(&tail[..], &bytes[12..]);
    }
}

#[test]
fn ether_header_reports_the_first_bad_address() {
    assert_eq!(
        Some(AddressFormatError::SegmentCount),
        EtherHdr::from_str("aa:bb", "zz", EtherType::IPv4).err()
    );
    assert_eq!(
        Some(AddressFormatError::InvalidDigit),
        EtherHdr::from_str("aa:bb:cc:dd:ee:ff", "zz", EtherType::IPv4).err()
    );
    assert_eq!(
        Some(AddressFormatError::OctetRange),
        EtherHdr::from_str("aa:bb:cc:dd:ee:ff", "a:b:c:d:e:f", EtherType::IPv4).err()
    );
}

#[test]
fn arp_header_bytes() {
    let request = ArpHdr::new_request(Htype::ETHER, Ptype::IPv4);
    assert_eq!(&[0x00, 0x01, 0x08, 0x00, 0x06, 0x04, 0x00, 0x01][..], &request.to_bytes()[..]);
    let reply = ArpHdr::new_response(Htype::ETHER, Ptype::IPv4);
    assert_eq!(&[0x00, 0x01, 0x08, 0x00, 0x06, 0x04, 0x00, 0x02][..], &reply.to_bytes()[..]);
}

#[test]
fn arp_conveniences_agree_with_the_general_constructor() {
    assert_eq!(
        ArpHdr::new(Htype::ETHER, Ptype::IPv4, ArpOp::REQUEST).to_bytes(),
        ArpHdr::new_request(Htype::ETHER, Ptype::IPv4).to_bytes()
    );
    assert_eq!(
        ArpHdr::new(Htype::ETHER, Ptype::IPv4, ArpOp::REPLY).to_bytes(),
        ArpHdr::new_response(Htype::ETHER, Ptype::IPv4).to_bytes()
    );
}

#[test]
fn arp_numbers() {
    assert_eq!(1, Htype::ETHER.code());
    assert_eq!(6, Htype::ETHER.hlen());
    assert_eq!(0x0800, Ptype::IPv4.code());
    assert_eq!(4, Ptype::IPv4.plen());
    assert_eq!(1, ArpOp::REQUEST.code());
    assert_eq!(2, ArpOp::REPLY.code());
}

#[test]
fn arp_payload_bytes() {
    let payload =
        ArpPayload::from_str("aa:bb:cc:dd:ee:ff", "192.168.1.1", "11:22:33:44:55:66", "192.168.1.2").unwrap();
    assert_eq!(
        &[
            0xaa, 0xbb, 0xcc, 0xdd, 0xee, 0xff, 192, 168, 1, 1, 0x11, 0x22, 0x33, 0x44, 0x55, 0x66, 192, 168,
            1, 2
        ][..],
        &payload.to_bytes()[..]
    );
}

#[test]
fn arp_payload_from_addresses() {
    let payload = ArpPayload::new(
        HardwareAddress::new([1, 2, 3, 4, 5, 6]),
        ProtocolAddress::new([7, 8, 9, 10]),
        HardwareAddress::new([11, 12, 13, 14, 15, 16]),
        ProtocolAddress::new([17, 18, 19, 20]),
    );
    let expected: Vec<u8> = (1..=20).collect();
    assert_eq!(&expected[..], &payload.to_bytes()[..]);
}

#[test]
fn arp_payload_reports_the_first_bad_address() {
    assert_eq!(
        Some(AddressFormatError::InvalidDigit),
        ArpPayload::from_str("xx", "1.2.3", "", "").err()
    );
    assert_eq!(
        Some(AddressFormatError::SegmentCount),
        ArpPayload::from_str("aa:bb:cc:dd:ee:ff", "1.2.3", "xx", "").err()
    );
    assert_eq!(
        Some(AddressFormatError::OctetRange),
        ArpPayload::from_str("aa:bb:cc:dd:ee:ff", "1.2.3.4", "aa:bb:cc:dd:ee:f", "x").err()
    );
    assert_eq!(
        Some(AddressFormatError::OctetRange),
        ArpPayload::from_str("aa:bb:cc:dd:ee:ff", "1.2.3.4", "aa:bb:cc:dd:ee:ff", "1.2.3.256").err()
    );
}

#[test]
fn ipv4_header_bytes() {
    let hdr = IPv4::new(
        ProtocolAddress::parse("127.0.0.1").unwrap(),
        ProtocolAddress::parse("127.0.0.2").unwrap(),
        IpProtocol::UDP,
    );
    assert_eq!(
        &[0x45, 0x00, 0x00, 0x14, 0x00, 0x01, 0x00, 0x00, 0x40, 0x11, 0x00, 0x00, 127, 0, 0, 1, 127, 0, 0, 2][..],
        &hdr.to_bytes()[..]
    );
}

#[test]
fn ipv4_header_carries_the_protocol_number() {
    assert_eq!(4, IpVersion::v4.code());
    assert_eq!(6, IpVersion::v6.code());
    for (protocol, number) in [(IpProtocol::ICMP, 1u8), (IpProtocol::TCP, 6), (IpProtocol::UDP, 17)] {
        assert_eq!(number, protocol.code());
        let hdr = IPv4::new(ProtocolAddress::new([10, 0, 0, 1]), ProtocolAddress::new([10, 0, 0, 2]), protocol);
        let bytes = hdr.to_bytes();
        assert_eq!(20, bytes.len());
        assert_eq!(number, bytes[9]);
    }
}

#[test]
fn ipv4_header_checksum_field_is_left_at_zero() {
    let hdr = IPv4::new(ProtocolAddress::new([192, 168, 0, 1]), ProtocolAddress::new([192, 168, 0, 199]), IpProtocol::UDP);
    let bytes = hdr.to_bytes();
    assert_eq!(&[0, 0][..], &bytes[10..12]);
    // 0x4500 + 0x0014 + 0x0001 + 0x4011 + 0xc0a8 + 0x0001 + 0xc0a8 + 0x00c7 = 0x2073e, folded 0x0740.
    assert_eq!(0x0740, IPv4::checksum(&bytes, false));
    assert_eq!(0x0740, IPv4::checksum(&bytes, true));
}

#[test]
fn udp_header_bytes() {
    let hdr = Udp::new(0x1234, 53);
    assert_eq!(&[0x12, 0x34, 0x00, 0x35, 0x00, 0x08, 0x00, 0x00][..], &hdr.to_bytes()[..]);
    assert_eq!(&[0xff, 0xff, 0x00, 0x00, 0x00, 0x08, 0x00, 0x00][..], &Udp::new(0xffff, 0).to_bytes()[..]);
}

#[test]
fn header_lengths() {
    assert_eq!(
        14,
        EtherHdr::from_str("aa:bb:cc:dd:ee:ff", "11:22:33:44:55:66", EtherType::IPv4).unwrap().to_bytes().len()
    );
    assert_eq!(8, ArpHdr::new(Htype::ETHER, Ptype::IPv4, ArpOp::REPLY).to_bytes().len());
    assert_eq!(
        20,
        ArpPayload::from_str("aa:bb:cc:dd:ee:ff", "0.0.0.0", "11:22:33:44:55:66", "255.255.255.255")
            .unwrap()
            .to_bytes()
            .len()
    );
    assert_eq!(
        20,
        IPv4::new(ProtocolAddress::new([0; 4]), ProtocolAddress::new([255; 4]), IpProtocol::TCP).to_bytes().len()
    );
    assert_eq!(8, Udp::new(0, 0xffff).to_bytes().len());
}
