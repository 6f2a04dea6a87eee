use bytes::Bytes;
use rnet::frame::{compose, try_compose};
use rnet::l2::arp::{ArpHdr, ArpPayload, Htype, Ptype};
use rnet::l2::ether::{EtherHdr, EtherType};

#[test]
fn arp_request_frame() {
    let ether_hdr = EtherHdr::from_str("aa:bb:cc:dd:ee:ff", "11:22:33:44:55:66", EtherType::ARP).unwrap();
    let arp_hdr = ArpHdr::new_request(Htype::ETHER, Ptype::IPv4);
    let arp_payload =
        ArpPayload::from_str("aa:bb:cc:dd:ee:ff", "192.168.1.1", "11:22:33:44:55:66", "192.168.1.2").unwrap();

    let layers = vec![ether_hdr.to_bytes(), arp_hdr.to_bytes(), arp_payload.to_bytes()];
    let frame = compose(&layers, None);

    assert_eq!(14 + 8 + 20, frame.len());
    assert_eq!(42, frame.len());
    assert_eq!(&[0x08, 0x06][..], &frame[12..14]);
    assert_eq!(&[0x00, 0x01][..], &frame[14..16]);
    assert_eq!(&[0x00, 0x01][..], &frame[20..22]);
    assert_eq!(
        &[
            0xaa, 0xbb, 0xcc, 0xdd, 0xee, 0xff, 0x11, 0x22, 0x33, 0x44, 0x55, 0x66, 0x08, 0x06, 0x00, 0x01,
            0x08, 0x00, 0x06, 0x04, 0x00, 0x01, 0xaa, 0xbb, 0xcc, 0xdd, 0xee, 0xff, 192, 168, 1, 1, 0x11, 0x22,
            0x33, 0x44, 0x55, 0x66, 192, 168, 1, 2
        ][..],
        &frame[..]
    );
}

#[test]
fn compose_keeps_order_and_content() {
    let layers = vec![
        Bytes::from_static(&[1, 2, 3]),
        Bytes::new(),
        Bytes::from_static(&[4]),
        Bytes::from_static(&[5, 6]),
    ];
    let frame = compose(&layers, None);
    assert_eq!(&[1, 2, 3, 4, 5, 6][..], &frame[..]);

    let mut start = 0;
    for layer in &layers {
        assert_eq!(&layer[..], &frame[start..start + layer.len()]);
        start += layer.len();
    }
    assert_eq!(start, frame.len());
}

#[test]
fn compose_order_matters() {
    let a = Bytes::from_static(&[1, 2]);
    let b = Bytes::from_static(&[3]);
    assert_eq!(&[1, 2, 3][..], &compose(&vec![a.clone(), b.clone()], None)[..]);
    assert_eq!(&[3, 1, 2][..], &compose(&vec![b, a], None)[..]);
}

#[test]
fn compose_appends_the_payload() {
    let layers = vec![Bytes::from_static(&[0xde, 0xad]), Bytes::from_static(&[0xbe, 0xef])];
    let payload = Bytes::from_static(b"hello");
    let frame = compose(&layers, Some(&payload));
    assert_eq!(&[0xde, 0xad, 0xbe, 0xef, b'h', b'e', b'l', b'l', b'o'][..], &frame[..]);
    assert_eq!(&b"hello"[..], &compose(&Vec::new(), Some(&payload))[..]);
}

#[test]
fn compose_of_nothing_is_empty() {
    assert_eq!(0, compose(&Vec::new(), None).len());
    assert_eq!(0, compose(&vec![Bytes::new(), Bytes::new()], Some(&Bytes::new())).len());
}

#[test]
fn compose_leaves_the_layers_untouched() {
    let layers = vec![Bytes::from_static(&[9, 8, 7]), Bytes::from_static(&[6])];
    let _ = compose(&layers, None);
    assert_eq!(&[9, 8, 7][..], &layers[0][..]);
    assert_eq!(&[6][..], &layers[1][..]);
}

#[test]
fn try_compose_gives_the_same_frame() {
    let layers = vec![Bytes::from_static(&[1, 2]), Bytes::from_static(&[3, 4, 5])];
    let payload = Bytes::from_static(&[6]);
    assert_eq!(Some(compose(&layers, None)), try_compose(&layers, None));
    assert_eq!(
        Some(Bytes::from_static(&[1, 2, 3, 4, 5, 6])),
        try_compose(&layers, Some(&payload))
    );
    assert_eq!(Some(Bytes::new()), try_compose(&Vec::new(), None));
}
