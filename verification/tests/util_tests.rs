use data_encoding::BASE64;
use x25519_dalek::{PublicKey, StaticSecret};

use packet_source::dns_resolver::{record_kind, DnsError, RecordKind};
use packet_source::util::{genkey, pem_body, pubkey, string_to_key, KeyError};

#[test]
fn genkey_is_a_key_rendering() {
    let key = genkey();
    // Base64 of 32 bytes: 44 characters, decoding back to 32 bytes.
    assert_eq!(key.len(), 44);
    let bytes = BASE64.decode(key.as_bytes()).unwrap();
    assert_eq!(bytes.len(), 32);
}

#[test]
fn string_to_key_round_trip() {
    let bytes = [7u8; 32];
    let rendered = BASE64.encode(&bytes);
    let key = string_to_key(rendered).unwrap();
    assert_eq!(key, bytes.to_vec());
}

#[test]
fn string_to_key_rejects_bad_input() {
    assert_eq!(string_to_key(String::from("not base64!")).unwrap_err(), KeyError::InvalidKey);
    // Valid base64, wrong length.
    let sixteen = BASE64.encode(&[1u8; 16]);
    assert_eq!(string_to_key(sixteen).unwrap_err(), KeyError::InvalidKey);
}

#[test]
fn string_to_key_accepts_concatenated_padded_blocks() {
    // The padded decoder accepts a concatenation of padded blocks —
    // a string that is the rendering of no byte sequence.  One byte
    // per block, thirty-two blocks: accepted, like the original.
    let block = BASE64.encode(&[0u8]);
    let joined = block.repeat(32);
    assert_eq!(joined.len(), 128);
    let key = string_to_key(joined).unwrap();
    assert_eq!(key, vec![0u8; 32]);
}

#[test]
fn pubkey_matches_direct_derivation() {
    let mut secret = [0u8; 32];
    for (i, b) in secret.iter_mut().enumerate() {
        *b = i as u8 + 1;
    }
    let rendered = BASE64.encode(&secret);
    let ours = pubkey(rendered.clone()).unwrap();
    let expected = BASE64.encode(PublicKey::from(&StaticSecret::from(secret)).as_bytes());
    assert_eq!(ours, expected);
    // The derivation is not the identity.
    assert_ne!(ours, rendered);
}

#[test]
fn pubkey_rejects_bad_input() {
    assert_eq!(pubkey(String::from("@@@@")).unwrap_err(), KeyError::InvalidKey);
}

#[test]
fn pubkey_of_generated_key_round_trips() {
    let private_key = genkey();
    let first = pubkey(private_key.clone()).unwrap();
    let second = pubkey(private_key).unwrap();
    assert_eq!(first, second);
    assert_eq!(first.len(), 44);
}

#[test]
fn pem_body_extracts_payload() {
    let pem = b"-----BEGIN CERTIFICATE-----\nAAAA\nBBBB\n-----END CERTIFICATE-----\n".to_vec();
    assert_eq!(pem_body(&pem), b"AAAABBBB".to_vec());
}

#[test]
fn pem_body_handles_crlf_and_trailing_text() {
    let pem = b"-----BEGIN CERTIFICATE-----\r\nCCCC\r\nDDDD\r\n-----END CERTIFICATE-----\r\ntrailer\n"
        .to_vec();
    assert_eq!(pem_body(&pem), b"CCCCDDDD".to_vec());
}

#[test]
fn pem_body_without_marker_takes_all_lines() {
    let pem = b"first\nsecond\nthird".to_vec();
    assert_eq!(pem_body(&pem), b"secondthird".to_vec());
}

#[test]
fn pem_body_of_empty_input_is_empty() {
    assert_eq!(pem_body(&Vec::new()), Vec::<u8>::new());
    assert_eq!(pem_body(&b"one line only".to_vec()), Vec::<u8>::new());
}

#[test]
fn record_kind_mapping() {
    assert_eq!(record_kind(1).unwrap(), RecordKind::A);
    assert_eq!(record_kind(28).unwrap(), RecordKind::Aaaa);
    assert_eq!(record_kind(2).unwrap_err(), DnsError::UnsupportedRecordType);
    assert_eq!(record_kind(0).unwrap_err(), DnsError::UnsupportedRecordType);
}
