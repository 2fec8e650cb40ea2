use packet_source::messages::{Packet, PacketError};

fn classic_header(checksum: [u8; 2]) -> Vec<u8> {
    vec![
        0x45, 0x00, 0x00, 0x3C, 0x1C, 0x46, 0x40, 0x00, 0x40, 0x06, checksum[0], checksum[1],
        0xAC, 0x10, 0x0A, 0x63, 0xAC, 0x10, 0x0A, 0x0C,
    ]
}

#[test]
fn checksum_known_value() {
    // The textbook IPv4 header whose correct checksum is 0xB1E6.
    let mut p = Packet::parse(classic_header([0x00, 0x00])).unwrap();
    p.fill_ip_checksum();
    assert_eq!(p.as_bytes()[10], 0xB1);
    assert_eq!(p.as_bytes()[11], 0xE6);
}

#[test]
fn checksum_overwrites_stale_value() {
    let mut p = Packet::parse(classic_header([0xDE, 0xAD])).unwrap();
    p.fill_ip_checksum();
    assert_eq!(&p.as_bytes()[10..12], &[0xB1, 0xE6]);
    // Everything but the checksum field is untouched.
    let repaired = p.into_inner();
    let reference = classic_header([0xB1, 0xE6]);
    assert_eq!(repaired, reference);
}

#[test]
fn checksum_is_idempotent() {
    let mut p = Packet::parse(classic_header([0x00, 0x00])).unwrap();
    p.fill_ip_checksum();
    let once = p.as_bytes().clone();
    p.fill_ip_checksum();
    assert_eq!(p.as_bytes(), &once);
}

#[test]
fn minimal_header_checksum() {
    let mut bytes = vec![0u8; 20];
    bytes[0] = 0x45;
    bytes[3] = 0x14;
    let mut p = Packet::parse(bytes).unwrap();
    p.fill_ip_checksum();
    // Words: 0x4500 + 0x0014 = 0x4514; complement = 0xBAEB.
    assert_eq!(&p.as_bytes()[10..12], &[0xBA, 0xEB]);
}

#[test]
fn ipv6_is_left_untouched() {
    let mut bytes = vec![0u8; 40];
    bytes[0] = 0x60;
    bytes[10] = 0x12;
    bytes[11] = 0x34;
    let mut p = Packet::parse(bytes.clone()).unwrap();
    p.fill_ip_checksum();
    assert_eq!(p.into_inner(), bytes);
}

#[test]
fn parse_rejects_short_buffers() {
    assert_eq!(Packet::parse(vec![]).unwrap_err(), PacketError::Malformed);
    assert_eq!(Packet::parse(vec![0x45, 0x00, 0x00]).unwrap_err(), PacketError::Malformed);
    // Nineteen bytes: one short of an IPv4 header.
    let mut bytes = vec![0u8; 19];
    bytes[0] = 0x45;
    assert_eq!(Packet::parse(bytes).unwrap_err(), PacketError::Malformed);
    // Thirty-nine bytes: one short of an IPv6 header.
    let mut bytes = vec![0u8; 39];
    bytes[0] = 0x60;
    assert_eq!(Packet::parse(bytes).unwrap_err(), PacketError::Malformed);
}

#[test]
fn parse_rejects_unsupported_version() {
    let mut bytes = vec![0u8; 40];
    bytes[0] = 0x50;
    assert_eq!(Packet::parse(bytes).unwrap_err(), PacketError::Malformed);
}

#[test]
fn parse_rejects_header_longer_than_buffer() {
    // Header length nibble claims 24 bytes but only 20 are there.
    let mut bytes = vec![0u8; 20];
    bytes[0] = 0x46;
    assert_eq!(Packet::parse(bytes).unwrap_err(), PacketError::Malformed);
}

#[test]
fn parse_rejects_oversized_buffer() {
    let mut bytes = vec![0u8; 65536];
    bytes[0] = 0x45;
    assert_eq!(Packet::parse(bytes).unwrap_err(), PacketError::Malformed);
}

#[test]
fn parse_accepts_options_header() {
    // Header length nibble of six: 24 header bytes, all present.
    let mut bytes = vec![0u8; 24];
    bytes[0] = 0x46;
    let p = Packet::parse(bytes).unwrap();
    assert_eq!(p.len(), 24);
}
