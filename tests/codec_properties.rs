//! Further checks of the header and frame codec on concrete values.

use idtp::{
    IdtpError, IdtpFrame, IdtpHeader, Mode, Version, IDTP_HEADER_SIZE, IDTP_PACKET_MAX_SIZE,
    IDTP_PACKET_MIN_SIZE, IDTP_PAYLOAD_MAX_SIZE, IDTP_PREAMBLE, IDTP_TRAILER,
    IDTP_TRAILER_SIZE,
};

fn sample_header() -> IdtpHeader {
    let mut header = IdtpHeader::new();
    header.mode = Mode::Safety;
    header.device_id = 0xABCD;
    header.checksum = 0x1234;
    header.sensors = 0x0102_0304;
    header.timestamp = 0xDEAD_BEEF;
    header.packet_num = 7;
    header.size = 24;
    header.crc = 0xCAFE_F00D;
    header
}

fn assert_same_header(a: &IdtpHeader, b: &IdtpHeader) {
    assert_eq!(a.preamble, b.preamble);
    assert_eq!(a.version, b.version);
    assert_eq!(a.mode, b.mode);
    assert_eq!(a.device_id, b.device_id);
    assert_eq!(a.checksum, b.checksum);
    assert_eq!(a.sensors, b.sensors);
    assert_eq!(a.timestamp, b.timestamp);
    assert_eq!(a.packet_num, b.packet_num);
    assert_eq!(a.size, b.size);
    assert_eq!(a.crc, b.crc);
}

#[test]
fn packet_size_constants() {
    assert_eq!(IDTP_PACKET_MIN_SIZE, 36);
    assert_eq!(IDTP_PACKET_MAX_SIZE, 1024);
    assert_eq!(IDTP_PAYLOAD_MAX_SIZE, 988);
    assert_eq!(IdtpHeader::new().as_bytes_be().len(), 32);
}

#[test]
fn fresh_header_fields() {
    let header = IdtpHeader::new();
    assert_eq!(header.preamble, *b"IDTP");
    assert_eq!(header.version, Version::new(1, 0, 0));
    assert_eq!(header.version, Version::current());
    assert_eq!(header.mode, Mode::Normal);
    assert_eq!(header.device_id, 0);
    assert_eq!(header.crc, 0);
}

#[test]
fn header_encoding_is_big_endian() {
    let bytes = sample_header().as_bytes_be();
    let expected: [u8; 32] = [
        0x49, 0x44, 0x54, 0x50, 0x01, 0x00, 0x00, 0x01, 0xAB, 0xCD, 0x12, 0x34, 0x01, 0x02,
        0x03, 0x04, 0xDE, 0xAD, 0xBE, 0xEF, 0x00, 0x00, 0x00, 0x07, 0x00, 0x00, 0x00, 0x18,
        0xCA, 0xFE, 0xF0, 0x0D,
    ];
    assert_eq!(bytes, expected);
}

#[test]
fn header_round_trip() {
    let header = sample_header();
    let decoded = IdtpHeader::from_bytes(&header.as_bytes_be()).unwrap();
    assert_same_header(&header, &decoded);

    let mut unknown = sample_header();
    unknown.mode = Mode::Unknown;
    let decoded = IdtpHeader::from_bytes(&unknown.as_bytes_be()).unwrap();
    assert_same_header(&unknown, &decoded);
}

#[test]
fn header_decode_does_not_check_preamble() {
    let mut bytes = [0u8; 32];
    bytes[7] = 0x01;
    let header = IdtpHeader::from_bytes(&bytes).unwrap();
    assert_eq!(header.preamble, [0, 0, 0, 0]);
    assert_eq!(header.version, Version::new(0, 0, 0));
    assert_eq!(header.mode, Mode::Safety);
}

#[test]
fn header_decode_of_short_input() {
    let bytes = [0u8; 31];
    assert_eq!(IdtpHeader::from_bytes(&bytes).unwrap_err(), IdtpError::TruncatedInput);
}

#[test]
fn version_decode() {
    assert_eq!(Version::from_bytes(&[4, 5, 6, 7]), Ok(Version::new(4, 5, 6)));
    assert_eq!(Version::from_bytes(&[4, 5]), Err(IdtpError::TruncatedInput));
}

#[test]
fn mode_mapping_is_total() {
    assert_eq!(Mode::from(0x00), Mode::Normal);
    assert_eq!(Mode::from(0x01), Mode::Safety);
    assert_eq!(Mode::from(0x02), Mode::Unknown);
    assert_eq!(Mode::from(0xFF), Mode::Unknown);
    assert_eq!(Mode::Normal.as_byte(), 0x00);
    assert_eq!(Mode::Safety.as_byte(), 0x01);
    assert_eq!(Mode::Unknown.as_byte(), 0xFF);
}

#[test]
fn pack_concrete_layout() {
    let mut header = IdtpHeader::new();
    header.version = Version::new(0, 0, 0);
    header.checksum = 0x1234;
    let payload: Vec<u8> = (1u8..=24).collect();

    let mut frame = IdtpFrame::new();
    frame.set_header(&header);
    assert_eq!(frame.set_payload(&payload), Ok(()));

    let mut buffer = [0xEEu8; 64];
    assert_eq!(frame.pack(&mut buffer), Ok(()));
    assert_eq!(&buffer[0..12], &[0x49, 0x44, 0x54, 0x50, 0, 0, 0, 0, 0, 0, 0x12, 0x34]);
    assert!(buffer[12..32].iter().all(|b| *b == 0));
    assert_eq!(&buffer[32..56], &payload[..]);
    assert_eq!(&buffer[56..60], &[0x50, 0x54, 0x44, 0x49]);
    assert_eq!(&buffer[60..64], &[0xEE; 4]);
}

#[test]
fn pack_into_undersized_buffer_writes_nothing() {
    let frame = IdtpFrame::new();
    let mut buffer = vec![0xAAu8; IDTP_PACKET_MIN_SIZE - 1];
    assert_eq!(frame.pack(&mut buffer), Err(IdtpError::BufferTooSmall));
    assert!(buffer.iter().all(|b| *b == 0xAA));

    let mut exact = vec![0u8; IDTP_PACKET_MIN_SIZE];
    assert_eq!(frame.pack(&mut exact), Ok(()));
    assert_eq!(&exact[IDTP_HEADER_SIZE..], &IDTP_TRAILER);
}

#[test]
fn pack_counts_the_payload() {
    let mut frame = IdtpFrame::new();
    assert_eq!(frame.set_payload(&[9u8; 10]), Ok(()));
    let mut buffer = vec![0u8; IDTP_PACKET_MIN_SIZE + 9];
    assert_eq!(frame.pack(&mut buffer), Err(IdtpError::BufferTooSmall));
    let mut buffer = vec![0u8; IDTP_PACKET_MIN_SIZE + 10];
    assert_eq!(frame.pack(&mut buffer), Ok(()));
}

#[test]
fn oversized_payload_is_refused() {
    let mut frame = IdtpFrame::new();
    assert_eq!(frame.set_payload(&[1, 2, 3]), Ok(()));
    let big = vec![7u8; IDTP_PAYLOAD_MAX_SIZE + 1];
    assert_eq!(frame.set_payload(&big), Err(IdtpError::PayloadTooLarge));
    assert_eq!(frame.payload(), &[1, 2, 3]);
    assert_eq!(frame.payload_size(), 3);
}

#[test]
fn largest_payload_is_accepted() {
    let mut frame = IdtpFrame::new();
    let big = vec![7u8; IDTP_PAYLOAD_MAX_SIZE];
    assert_eq!(frame.set_payload(&big), Ok(()));
    assert_eq!(frame.payload_size(), IDTP_PAYLOAD_MAX_SIZE);
    let mut buffer = vec![0u8; IDTP_PACKET_MAX_SIZE];
    assert_eq!(frame.pack(&mut buffer), Ok(()));
    assert_eq!(&buffer[IDTP_PACKET_MAX_SIZE - IDTP_TRAILER_SIZE..], &IDTP_TRAILER);
}

#[test]
fn shorter_payload_replaces_longer_one() {
    let mut frame = IdtpFrame::new();
    assert_eq!(frame.set_payload(&[1, 2, 3, 4, 5]), Ok(()));
    assert_eq!(frame.set_payload(&[8, 9]), Ok(()));
    assert_eq!(frame.payload(), &[8, 9]);
    assert_eq!(frame.set_payload(&[]), Ok(()));
    assert_eq!(frame.payload_size(), 0);
}

#[test]
fn frame_round_trip() {
    let mut frame = IdtpFrame::new();
    frame.set_header(&sample_header());
    let payload: Vec<u8> = (0u8..24).map(|b| b.wrapping_mul(37)).collect();
    assert_eq!(frame.set_payload(&payload), Ok(()));

    let mut buffer = [0u8; 100];
    assert_eq!(frame.pack(&mut buffer), Ok(()));
    let length = IDTP_PACKET_MIN_SIZE + payload.len();
    let parsed = IdtpFrame::from_bytes(&buffer[..length]).unwrap();
    assert_same_header(&parsed.header(), &frame.header());
    assert_eq!(parsed.payload(), &payload[..]);
    assert_eq!(parsed.payload_size(), frame.payload_size());
}

#[test]
fn parse_ignores_trailer_value() {
    let mut bytes = vec![0u8; IDTP_PACKET_MIN_SIZE + 2];
    bytes[..4].copy_from_slice(&IDTP_PREAMBLE);
    bytes[32] = 5;
    bytes[33] = 6;
    let frame = IdtpFrame::from_bytes(&bytes).unwrap();
    assert_eq!(frame.payload(), &[5, 6]);
    assert_eq!(frame.header().preamble, IDTP_PREAMBLE);
}

#[test]
fn parse_length_errors() {
    let short = vec![0u8; IDTP_PACKET_MIN_SIZE - 1];
    assert_eq!(IdtpFrame::from_bytes(&short).unwrap_err(), IdtpError::TruncatedInput);
    let long = vec![0u8; IDTP_PACKET_MAX_SIZE + 1];
    assert_eq!(IdtpFrame::from_bytes(&long).unwrap_err(), IdtpError::PayloadTooLarge);
    let empty = vec![0u8; IDTP_PACKET_MIN_SIZE];
    assert_eq!(IdtpFrame::from_bytes(&empty).unwrap().payload_size(), 0);
}

#[test]
fn default_frame_is_new_frame() {
    let frame = IdtpFrame::default();
    assert_eq!(frame.payload_size(), 0);
    assert_eq!(frame.header().preamble, IDTP_PREAMBLE);
    assert_eq!(frame.header().version, Version::current());
}

#[test]
fn set_header_keeps_payload() {
    let mut frame = IdtpFrame::new();
    assert_eq!(frame.set_payload(&[4, 2]), Ok(()));
    frame.set_header(&sample_header());
    assert_eq!(frame.header().device_id, 0xABCD);
    assert_eq!(frame.payload(), &[4, 2]);
}

#[test]
fn parse_then_pack_rebuilds_packet() {
    let mut bytes = IdtpHeader::new().as_bytes_be().to_vec();
    bytes.extend_from_slice(&IDTP_TRAILER);
    let frame = IdtpFrame::from_bytes(&bytes).unwrap();
    assert_eq!(frame.payload_size(), 0);
    assert_eq!(frame.header().preamble, *b"IDTP");

    let mut buffer = vec![0u8; bytes.len()];
    assert_eq!(frame.pack(&mut buffer), Ok(()));
    assert_eq!(buffer, bytes);
}

#[test]
fn parse_ignores_last_four_bytes() {
    let mut first = vec![3u8; IDTP_PACKET_MIN_SIZE + 5];
    let mut second = first.clone();
    let end = first.len();
    first[end - 4..].copy_from_slice(&IDTP_TRAILER);
    second[end - 4..].copy_from_slice(&[0, 0, 0, 0]);
    let a = IdtpFrame::from_bytes(&first).unwrap();
    let b = IdtpFrame::from_bytes(&second).unwrap();
    assert_same_header(&a.header(), &b.header());
    assert_eq!(a.payload(), b.payload());
    assert_eq!(a.payload_size(), 5);
}
