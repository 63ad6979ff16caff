use websockproxy_relay::mac::{ethernet_addrs, MacAddress};

#[test]
fn parses_destination_and_source_mac() {
    let frame = [
        0xaa, 0xbb, 0xcc, 0xdd, 0xee, 0xff, 0x00, 0x11, 0x22, 0x33, 0x44, 0x55, 0x08, 0x00,
    ];

    let (destination, source) = ethernet_addrs(&frame).expect("ethernet header");
    assert_eq!(destination.to_string(), "aa:bb:cc:dd:ee:ff");
    assert_eq!(source.to_string(), "00:11:22:33:44:55");
}

#[test]
fn detects_broadcast_and_multicast() {
    let broadcast = MacAddress([0xff; 6]);
    let multicast = MacAddress([0x01, 0x00, 0x5e, 0x00, 0x00, 0xfb]);
    let unicast = MacAddress([0x02, 0x00, 0x00, 0x00, 0x00, 0x01]);

    assert!(broadcast.is_broadcast_or_multicast());
    assert!(multicast.is_broadcast_or_multicast());
    assert!(!unicast.is_broadcast_or_multicast());
}

#[test]
fn an_address_needs_six_bytes() {
    assert_eq!(MacAddress::from_slice(&[1, 2, 3, 4, 5]), None);
    assert_eq!(MacAddress::from_slice(&[1, 2, 3, 4, 5, 6, 7]), None);
    assert_eq!(
        MacAddress::from_slice(&[1, 2, 3, 4, 5, 6]),
        Some(MacAddress([1, 2, 3, 4, 5, 6]))
    );
}

#[test]
fn a_frame_needs_both_addresses() {
    let frame = [1, 2, 3, 4, 5, 6, 7, 8, 9, 10, 11, 12];

    assert!(ethernet_addrs(&frame).is_some());
    assert!(ethernet_addrs(&frame[..11]).is_none());
    assert!(ethernet_addrs(&[]).is_none());
    assert_eq!(
        MacAddress::destination(&frame[..6]),
        Some(MacAddress([1, 2, 3, 4, 5, 6]))
    );
    assert_eq!(MacAddress::destination(&frame[..5]), None);
    assert_eq!(MacAddress::source(&frame[..11]), None);
    assert_eq!(
        MacAddress::source(&frame),
        Some(MacAddress([7, 8, 9, 10, 11, 12]))
    );
}

#[test]
fn the_number_of_an_address_is_its_bytes_in_order() {
    assert_eq!(
        MacAddress([0x01, 0x02, 0x03, 0x04, 0x05, 0x06]).to_number(),
        0x0102_0304_0506
    );
    assert_eq!(MacAddress::broadcast().to_number(), 0xffff_ffff_ffff);
    assert_eq!(MacAddress::broadcast(), MacAddress([0xff; 6]));
}

#[test]
fn different_addresses_differ_in_text_and_number() {
    let a = MacAddress([0x02, 0x00, 0x00, 0x00, 0x00, 0x10]);
    let b = MacAddress([0x02, 0x00, 0x00, 0x00, 0x01, 0x00]);

    assert_ne!(a, b);
    assert_ne!(a.to_number(), b.to_number());
    assert_ne!(a.to_string(), b.to_string());
}
