use entropy_engine::errors::EntropyError;
use entropy_engine::models::EntropyPacket;
use entropy_engine::parser::{PacketParser, MAX_PAYLOAD_LEN};

#[test]
fn round_trip_parse() {
    let payload = vec![0xDE, 0xAD, 0xBE, 0xEF, 0x42];
    let raw = PacketParser::build_raw(0x01, 1000, &payload);
    let packet = PacketParser::parse(&raw).unwrap();
    assert_eq!(packet.source_id, 0x01);
    assert_eq!(packet.timestamp, 1000);
    assert_eq!(packet.payload, payload);
}

#[test]
fn rejects_bad_magic() {
    let mut raw = PacketParser::build_raw(0x01, 0, &[0xFF]);
    raw[0] = 0x00;
    assert!(PacketParser::parse(&raw).is_err());
}

#[test]
fn rejects_truncated() {
    assert!(PacketParser::parse(&[0xE7, 0x01]).is_err());
}

#[test]
fn rejects_trailing_bytes() {
    let mut raw = PacketParser::build_raw(0x01, 0, &[0xAA]);
    raw.push(0xFF);
    let err = PacketParser::parse(&raw);
    assert!(err.is_err(), "must reject packets with trailing bytes");
}

#[test]
fn rejects_corrupted_checksum() {
    let mut raw = PacketParser::build_raw(0x01, 0, &[0xAA, 0xBB, 0xCC]);
    let last = raw.len() - 1;
    raw[last] ^= 0xFF;
    let err = PacketParser::parse(&raw);
    assert!(err.is_err(), "must reject corrupted checksum");
}

#[test]
fn empty_payload_round_trip() {
    let raw = PacketParser::build_raw(0x01, 42, &[]);
    let packet = PacketParser::parse(&raw).unwrap();
    assert!(packet.payload.is_empty());
    assert_eq!(packet.timestamp, 42);
}

#[test]
fn max_payload_round_trip() {
    let payload = vec![0xAB; MAX_PAYLOAD_LEN];
    let raw = PacketParser::build_raw(0xFF, u64::MAX, &payload);
    let packet = PacketParser::parse(&raw).unwrap();
    assert_eq!(packet.payload.len(), MAX_PAYLOAD_LEN);
    assert_eq!(packet.source_id, 0xFF);
    assert_eq!(packet.timestamp, u64::MAX);
}

#[test]
fn rejects_claimed_payload_larger_than_max() {
    let mut raw = vec![0xE7, 0x01];
    raw.extend_from_slice(&0u64.to_le_bytes());
    raw.extend_from_slice(&((MAX_PAYLOAD_LEN as u16 + 1).to_le_bytes()));
    raw.extend(vec![0u8; MAX_PAYLOAD_LEN + 1]);
    raw.extend_from_slice(&0u16.to_le_bytes());
    assert!(PacketParser::parse(&raw).is_err());
}

#[test]
fn rejects_empty_input() {
    assert!(PacketParser::parse(&[]).is_err());
}

fn parse_reason(raw: &[u8]) -> String {
    match PacketParser::parse(raw) {
        Err(EntropyError::ParseError { reason }) => reason,
        other => panic!("expected a parse error, got {:?}", other),
    }
}

#[test]
fn frame_layout_is_little_endian_with_crc() {
    let raw = PacketParser::build_raw(0x02, 0x0102030405060708, &[0x10, 0x20]);
    assert_eq!(raw.len(), 12 + 2 + 2);
    assert_eq!(&raw[..12], &[0xE7, 0x02, 0x08, 0x07, 0x06, 0x05, 0x04, 0x03, 0x02, 0x01, 0x02, 0x00]);
    assert_eq!(&raw[12..14], &[0x10, 0x20]);
    let crc = u16::from_le_bytes([raw[14], raw[15]]);
    let packet = PacketParser::parse(&raw).unwrap();
    assert_eq!(packet.checksum, crc);
}

#[test]
fn crc16_ccitt_false_check_value() {
    // CRC-16/CCITT-FALSE of "123456789" is 0x29B1.
    let mut packet = EntropyPacket { source_id: 0, timestamp: 0, payload: Vec::new(), checksum: 0x29B1 };
    assert!(PacketParser::validate_checksum(&packet, b"123456789"));
    packet.checksum = 0x29B2;
    assert!(!PacketParser::validate_checksum(&packet, b"123456789"));
}

#[test]
fn error_reasons_name_the_defect() {
    assert_eq!(parse_reason(&[0xE7]), "buffer too short: 1 bytes, minimum 14");
    let mut raw = PacketParser::build_raw(1, 0, &[1]);
    raw[0] = 0x5A;
    assert_eq!(parse_reason(&raw), "invalid magic byte: 0x5A, expected 0xE7");
}
