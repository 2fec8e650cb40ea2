use packet_source::framing::{decode, encode_control, encode_data, FrameError, WireMessage};
use packet_source::intercept_conf::InterceptConf;
use packet_source::packet_sources::macos::{deserialize_packet, serialize_packet, MacosIpcRecv,
    MacosIpcSend};

#[test]
fn round_trip_data() {
    let payload = vec![0x45u8, 0x00, 0x00, 0x14, 9, 8, 7];
    let buf = encode_data(&payload, "curl").unwrap();
    match decode(&buf).unwrap() {
        WireMessage::Data { payload: p, attribution } => {
            assert_eq!(p, payload);
            assert_eq!(attribution.as_deref(), Some("curl"));
        },
        _ => panic!("expected a data message"),
    }
}

#[test]
fn round_trip_empty_attribution() {
    let payload = vec![1u8, 2, 3];
    let buf = encode_data(&payload, "").unwrap();
    match decode(&buf).unwrap() {
        WireMessage::Data { payload: p, attribution } => {
            assert_eq!(p, payload);
            assert!(attribution.is_none());
        },
        _ => panic!("expected a data message"),
    }
}

#[test]
fn round_trip_empty_payload() {
    let buf = encode_data(&Vec::new(), "tool").unwrap();
    match decode(&buf).unwrap() {
        WireMessage::Data { payload, attribution } => {
            assert!(payload.is_empty());
            assert_eq!(attribution.as_deref(), Some("tool"));
        },
        _ => panic!("expected a data message"),
    }
}

#[test]
fn round_trip_non_ascii_attribution() {
    let payload = vec![7u8];
    let buf = encode_data(&payload, "géo日本").unwrap();
    match decode(&buf).unwrap() {
        WireMessage::Data { attribution, .. } => {
            assert_eq!(attribution.as_deref(), Some("géo日本"));
        },
        _ => panic!("expected a data message"),
    }
}

#[test]
fn serialize_packet_wire_layout() {
    let buf = serialize_packet(MacosIpcSend::Packet(vec![1, 2, 3]));
    assert_eq!(buf, vec![0x0A, 0x03, 1, 2, 3]);
}

#[test]
fn serialize_packet_varint_length() {
    let data = vec![0xABu8; 300];
    let buf = serialize_packet(MacosIpcSend::Packet(data.clone()));
    assert_eq!(buf[0], 0x0A);
    assert_eq!(&buf[1..3], &[0xAC, 0x02]);
    assert_eq!(&buf[3..], &data[..]);
}

#[test]
fn serialize_matches_prost_encoding() {
    let data = vec![0x45u8, 0x00, 0x00, 0x14, 0xFF];
    let ours = serialize_packet(MacosIpcSend::Packet(data.clone()));
    let mut theirs: Vec<u8> = Vec::new();
    prost::encoding::bytes::encode(1, &data, &mut theirs);
    assert_eq!(ours, theirs);
}

#[test]
fn encode_data_matches_prost_encoding() {
    let data = vec![9u8, 9, 9];
    let name = String::from("curl");
    let ours = encode_data(&data, &name).unwrap();
    let mut theirs: Vec<u8> = Vec::new();
    prost::encoding::bytes::encode(1, &data, &mut theirs);
    prost::encoding::string::encode(2, &name, &mut theirs);
    assert_eq!(ours, theirs);
}

#[test]
fn deserialize_reports_attribution() {
    let buf = encode_data(&vec![1u8], "curl").unwrap();
    let m = deserialize_packet(&buf).unwrap();
    assert_eq!(
        m,
        MacosIpcRecv::Packet { data: vec![1u8], process_name: Some(String::from("curl")) }
    );
}

#[test]
fn deserialize_absent_attribution_is_empty_name() {
    let buf = serialize_packet(MacosIpcSend::Packet(vec![5u8, 6]));
    let m = deserialize_packet(&buf).unwrap();
    assert_eq!(
        m,
        MacosIpcRecv::Packet { data: vec![5u8, 6], process_name: Some(String::new()) }
    );
}

#[test]
fn short_buffer_is_malformed() {
    let r = decode(&[0x45u8, 0x00, 0x00]);
    assert_eq!(r.unwrap_err(), FrameError::Malformed);
    let r = deserialize_packet(&[0x45u8, 0x00, 0x00]);
    assert_eq!(r.unwrap_err(), FrameError::Malformed);
}

#[test]
fn truncated_field_is_malformed() {
    // Field 1 claims five payload bytes but only one follows.
    let r = decode(&[0x0Au8, 0x05, 0x01]);
    assert_eq!(r.unwrap_err(), FrameError::Malformed);
}

#[test]
fn invalid_utf8_attribution_is_malformed() {
    // Field 2 with two bytes that are not UTF-8.
    let r = decode(&[0x12u8, 0x02, 0xFF, 0xFE]);
    assert_eq!(r.unwrap_err(), FrameError::Malformed);
}

#[test]
fn unknown_fields_are_ignored() {
    // Field 4 (varint), field 6 (32-bit), field 7 (64-bit), then the
    // payload in field 1.
    let buf = vec![
        0x20u8, 0x05, // field 4, varint 5
        0x35, 1, 2, 3, 4, // field 6, four bytes
        0x39, 1, 2, 3, 4, 5, 6, 7, 8, // field 7, eight bytes
        0x0A, 0x02, 0xAA, 0xBB, // field 1, payload
    ];
    match decode(&buf).unwrap() {
        WireMessage::Data { payload, attribution } => {
            assert_eq!(payload, vec![0xAA, 0xBB]);
            assert!(attribution.is_none());
        },
        _ => panic!("expected a data message"),
    }
}

#[test]
fn oversized_payload_is_a_hard_error() {
    let payload = vec![0u8; 65536];
    let r = encode_data(&payload, "");
    assert_eq!(r.unwrap_err(), FrameError::Oversized);
}

#[test]
fn largest_payload_fits_exactly() {
    let payload = vec![0u8; 65535];
    let buf = encode_data(&payload, "").unwrap();
    assert_eq!(buf.len(), 65539);
}

#[test]
fn control_round_trip() {
    let conf = InterceptConf::new(vec![10u8, 20, 30]);
    let buf = encode_control(&conf).unwrap();
    assert_eq!(buf, vec![0x1A, 0x03, 10, 20, 30]);
    match decode(&buf).unwrap() {
        WireMessage::Control { conf: blob } => assert_eq!(blob, vec![10u8, 20, 30]),
        _ => panic!("expected a control message"),
    }
}
