use rnet::addr::hardware::HardwareAddress;
use rnet::addr::protocol::ProtocolAddress;
use rnet::addr::text::AddressFormatError;

#[test]
fn hardware_address_parses_colons() {
    let addr = HardwareAddress::parse("aa:bb:cc:dd:ee:ff").unwrap();
    assert_eq!([0xaa, 0xbb, 0xcc, 0xdd, 0xee, 0xff], addr.to_bytes());
}

#[test]
fn hardware_address_parses_hyphens_and_upper_case() {
    let addr = HardwareAddress::parse("01-23-45-67-89-AB").unwrap();
    assert_eq!([0x01, 0x23, 0x45, 0x67, 0x89, 0xab], addr.to_bytes());
    let mixed = HardwareAddress::parse("0a:1B-2c:3D-4e:5F").unwrap();
    assert_eq!([0x0a, 0x1b, 0x2c, 0x3d, 0x4e, 0x5f], mixed.to_bytes());
}

#[test]
fn hardware_address_keeps_given_octets() {
    let addr = HardwareAddress::new([1, 2, 3, 4, 5, 6]);
    assert_eq!([1, 2, 3, 4, 5, 6], addr.to_bytes());
}

#[test]
fn hardware_address_text_is_canonical() {
    let addr = HardwareAddress::parse("aa-bb-cc-0d-e0-ff").unwrap();
    assert_eq!("AA:BB:CC:0D:E0:FF", addr.to_text());
    assert_eq!("00:00:00:00:00:00", HardwareAddress::new([0; 6]).to_text());
    assert_eq!("09:0A:90:A0:9A:A9", HardwareAddress::new([0x09, 0x0a, 0x90, 0xa0, 0x9a, 0xa9]).to_text());
}

#[test]
fn hardware_address_text_round_trips() {
    for text in ["aa:bb:cc:dd:ee:ff", "11-22-33-44-55-66", "00:00:00:00:00:00", "Fe:dC:Ba:98:76:54"] {
        let addr = HardwareAddress::parse(text).unwrap();
        let canonical = addr.to_text();
        let again = HardwareAddress::parse(&canonical).unwrap();
        assert_eq!(addr.to_bytes(), again.to_bytes());
        assert_eq!(canonical, again.to_text());
        assert_eq!(text.to_uppercase().replace('-', ":"), canonical);
    }
}

#[test]
fn hardware_address_rejects_wrong_octet_count() {
    for text in ["", "aa", "aa:bb:cc:dd:ee", "aa:bb:cc:dd:ee:ff:00", "aabbccddeeff", "aa:bb:cc:dd:eeff"] {
        assert_eq!(Some(AddressFormatError::SegmentCount), HardwareAddress::parse(text).err());
    }
}

#[test]
fn hardware_address_rejects_foreign_characters() {
    for text in [
        "aa:bb:cc:dd:ee:fg",
        "aa:bb:cc:dd:ee:f ",
        "aa.bb.cc.dd.ee.ff",
        "80|FA|AA|41|10|6B",
        "+a:bb:cc:dd:ee:ff",
        "aa:bb:cc:dd:ee:f\u{e9}",
        "zz",
    ] {
        assert_eq!(Some(AddressFormatError::InvalidDigit), HardwareAddress::parse(text).err());
    }
}

#[test]
fn hardware_address_rejects_octets_of_wrong_width() {
    for text in [
        "a:b:c:d:e:f",
        "aa:bb:cc:dd:ee:fff",
        "aa:bb:cc:dd:ee:",
        ":bb:cc:dd:ee:ff",
        "aaa:b:cc:dd:ee:ff",
        "0:1:2:3:4:567890a",
        "00000000000:0:0:0:0:0",
    ] {
        assert_eq!(Some(AddressFormatError::OctetRange), HardwareAddress::parse(text).err());
    }
}

#[test]
fn protocol_address_parses_dotted_decimal() {
    assert_eq!([192, 168, 1, 1], ProtocolAddress::parse("192.168.1.1").unwrap().to_bytes());
    assert_eq!([0, 0, 0, 0], ProtocolAddress::parse("0.0.0.0").unwrap().to_bytes());
    assert_eq!([255, 255, 255, 255], ProtocolAddress::parse("255.255.255.255").unwrap().to_bytes());
    assert_eq!([127, 0, 0, 2], ProtocolAddress::parse("127.0.0.2").unwrap().to_bytes());
    assert_eq!([10, 99, 100, 9], ProtocolAddress::parse("10.99.100.9").unwrap().to_bytes());
}

#[test]
fn protocol_address_keeps_given_octets() {
    assert_eq!([10, 0, 0, 1], ProtocolAddress::new([10, 0, 0, 1]).to_bytes());
}

#[test]
fn protocol_address_rejects_wrong_octet_count() {
    for text in ["", "1", "1.2.3", "1.2.3.4.5", "1.2.3.4.", "...."] {
        assert_eq!(Some(AddressFormatError::SegmentCount), ProtocolAddress::parse(text).err());
    }
}

#[test]
fn protocol_address_rejects_foreign_characters() {
    for text in ["a.b.c.d", "1.2.3.4 ", "1,2,3,4", "-1.2.3.4", "1.2.3.0x4", "1.2.3.\u{664}"] {
        assert_eq!(Some(AddressFormatError::InvalidDigit), ProtocolAddress::parse(text).err());
    }
}

#[test]
fn protocol_address_rejects_octets_out_of_range() {
    for text in ["256.1.1.1", "1.1.1.999", "1.1.1.1000", "1..1.1", ".1.1.1", "1.1.1.", "01.1.1.1", "1.1.1.00", "1.2.3.0255"] {
        assert_eq!(Some(AddressFormatError::OctetRange), ProtocolAddress::parse(text).err());
    }
}

#[test]
fn foreign_character_is_reported_before_the_count() {
    assert_eq!(Some(AddressFormatError::InvalidDigit), HardwareAddress::parse("aa:bb:xx").err());
    assert_eq!(Some(AddressFormatError::InvalidDigit), ProtocolAddress::parse("1.2.x").err());
    assert_eq!(Some(AddressFormatError::SegmentCount), HardwareAddress::parse("aaa:bb:cc").err());
    assert_eq!(Some(AddressFormatError::SegmentCount), ProtocolAddress::parse("999.1").err());
}

#[test]
fn protocol_address_text_is_canonical() {
    assert_eq!("192.168.1.1", ProtocolAddress::new([192, 168, 1, 1]).to_text());
    assert_eq!("0.0.0.0", ProtocolAddress::new([0; 4]).to_text());
    assert_eq!("255.255.255.255", ProtocolAddress::new([255; 4]).to_text());
    assert_eq!("9.10.99.100", ProtocolAddress::new([9, 10, 99, 100]).to_text());
    assert_eq!("101.110.200.7", ProtocolAddress::new([101, 110, 200, 7]).to_text());
}

#[test]
fn protocol_address_text_round_trips() {
    for octets in [[0, 0, 0, 0], [1, 20, 255, 100], [10, 9, 99, 199], [127, 0, 0, 1]] {
        let text = ProtocolAddress::new(octets).to_text();
        let again = ProtocolAddress::parse(&text).unwrap();
        assert_eq!(octets, again.to_bytes());
        assert_eq!(text, again.to_text());
    }
    for text in ["192.168.1.2", "8.8.8.8", "250.205.25.0"] {
        assert_eq!(text, ProtocolAddress::parse(text).unwrap().to_text());
    }
}

#[test]
fn every_octet_round_trips_through_text() {
    for n in 0..=255u8 {
        let hw = HardwareAddress::new([n, 0, n, 255, n, 16]);
        assert_eq!(hw.to_bytes(), HardwareAddress::parse(&hw.to_text()).unwrap().to_bytes());
        let ip = ProtocolAddress::new([n, 0, 255, n]);
        assert_eq!(ip.to_bytes(), ProtocolAddress::parse(&ip.to_text()).unwrap().to_bytes());
    }
}
