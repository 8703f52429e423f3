use macsec_packet_analyzer::message::{
    bytes_to_u16, calculate_checksum, hex_encode, parse, parse_multiple, u16_to_bytes, Message,
    ParseError,
};

#[test]
fn test_error_display_message_too_short() {
    let err = ParseError::MessageTooShort { actual: 3 };
    assert_eq!(err.to_string(), "Message data too short: 3 bytes (minimum 5 required)");
}

#[test]
fn test_error_display_invalid_version() {
    let err = ParseError::InvalidVersion { version: 5 };
    assert!(err.to_string().contains("version: 5"));
    assert!(err.to_string().contains("only version 1"));
}

#[test]
fn test_error_display_checksum_mismatch() {
    let err = ParseError::ChecksumMismatch { expected: 0xAB, calculated: 0xCD };
    assert!(err.to_string().contains("Checksum mismatch"));
    assert!(err.to_string().contains("0xAB"));
}

#[test]
fn test_calculate_checksum_simple() {
    assert_eq!(calculate_checksum(&[]), 0);
    assert_eq!(calculate_checksum(&[5]), 5);
    assert_eq!(calculate_checksum(&[5, 5]), 0);
    assert_eq!(calculate_checksum(&[1, 2, 3]), 0);
}

#[test]
fn test_calculate_checksum_hello_world() {
    let payload = b"Hello World";
    let checksum = calculate_checksum(payload);

    let mut expected = 0u8;
    for &byte in payload {
        expected ^= byte;
    }
    assert_eq!(checksum, expected);
}

#[test]
fn test_bytes_to_u16_basic() {
    assert_eq!(bytes_to_u16(&[0x00, 0x0A]), 10);
    assert_eq!(bytes_to_u16(&[0x01, 0x00]), 256);
    assert_eq!(bytes_to_u16(&[0xFF, 0xFF]), 65535);
    assert_eq!(bytes_to_u16(&[0x12, 0x34]), 0x1234);
}

#[test]
fn test_u16_to_bytes_basic() {
    assert_eq!(u16_to_bytes(10), [0x00, 0x0A]);
    assert_eq!(u16_to_bytes(256), [0x01, 0x00]);
    assert_eq!(u16_to_bytes(65535), [0xFF, 0xFF]);
    assert_eq!(u16_to_bytes(0x1234), [0x12, 0x34]);
}

#[test]
fn test_u16_round_trip() {
    for value in [0, 1, 255, 256, 1000, 65535] {
        let bytes = u16_to_bytes(value);
        let restored = bytes_to_u16(&bytes);
        assert_eq!(value, restored);
    }
}

#[test]
fn test_message_new_calculates_checksum() {
    let msg = Message::new(1, 5, vec![1, 2, 3]);
    assert_eq!(msg.checksum, 0);
}

#[test]
fn test_message_to_bytes_format() {
    let msg = Message::new(1, 5, vec![1, 2, 3]);
    let bytes = msg.to_bytes();

    assert_eq!(bytes[0], 1);
    assert_eq!(bytes[1], 5);
    assert_eq!(bytes[2], 0);
    assert_eq!(bytes[3], 3);
    assert_eq!(&bytes[4..7], &[1, 2, 3]);
    assert_eq!(bytes[7], 0);
}

#[test]
fn test_message_validate_valid() {
    let msg = Message::new(1, 5, vec![1, 2, 3]);
    assert!(msg.validate().is_ok());
}

#[test]
fn test_message_validate_invalid_version() {
    let msg = Message { version: 2, message_type: 5, payload: vec![1, 2, 3], checksum: 0 };
    assert!(msg.validate().is_err());
}

#[test]
fn test_message_validate_checksum_mismatch() {
    let msg = Message { version: 1, message_type: 5, payload: vec![1, 2, 3], checksum: 99 };
    assert!(msg.validate().is_err());
}

#[test]
fn lib_test_message_display() {
    let msg = Message::new(1, 5, vec![1, 2, 3, 4, 5]);
    let display_str = msg.to_string();
    assert!(display_str.contains("v1"));
    assert!(display_str.contains("type=5"));
    assert!(display_str.contains("payload_len=5"));
}

#[test]
fn test_parse_valid_simple() {
    let packet = vec![0x01, 0x05, 0x00, 0x03, 0x01, 0x02, 0x03, 0x00];

    let msg = parse(&packet).expect("Parse failed");
    assert_eq!(msg.version, 1);
    assert_eq!(msg.message_type, 5);
    assert_eq!(msg.payload, vec![1, 2, 3]);
    assert_eq!(msg.checksum, 0);
}

#[test]
fn test_parse_message_too_short() {
    let packet = vec![0x01, 0x05, 0x00];
    assert!(parse(&packet).is_err());
}

#[test]
fn test_parse_invalid_version() {
    let packet = vec![0x02, 0x05, 0x00, 0x00, 0x00];
    let result = parse(&packet);
    assert!(matches!(result, Err(ParseError::InvalidVersion { version: 2 })));
}

#[test]
fn test_parse_incomplete_payload() {
    let packet = vec![0x01, 0x05, 0x00, 0x05, 0x01, 0x02, 0x00];
    assert!(matches!(parse(&packet), Err(ParseError::IncompletPayload { .. })));
}

#[test]
fn test_parse_checksum_mismatch() {
    let packet = vec![0x01, 0x05, 0x00, 0x03, 0x01, 0x02, 0x03, 0xFF];
    assert!(matches!(parse(&packet), Err(ParseError::ChecksumMismatch { .. })));
}

#[test]
fn lib_test_parse_empty_payload() {
    let packet = vec![0x01, 0x05, 0x00, 0x00, 0x00];

    let msg = parse(&packet).expect("Parse failed");
    assert_eq!(msg.payload.len(), 0);
}

#[test]
fn test_parse_payload_too_large() {
    let packet = vec![0x01, 0x01, 0xFF, 0xFF, 0x00];
    let result = parse(&packet);
    assert!(matches!(
        result,
        Err(ParseError::PayloadTooLarge { .. }) | Err(ParseError::IncompletPayload { .. })
    ));
}

#[test]
fn lib_test_parse_multiple_messages() {
    let msg1 = Message::new(1, 5, vec![1, 2, 3]);
    let msg2 = Message::new(1, 10, vec![4, 5, 6, 7]);

    let mut data = msg1.to_bytes();
    data.extend_from_slice(&msg2.to_bytes());

    let messages = parse_multiple(&data).expect("Parse failed");
    assert_eq!(messages.len(), 2);
    assert_eq!(messages[0].message_type, 5);
    assert_eq!(messages[1].message_type, 10);
    assert_eq!(messages[1].payload.len(), 4);
}

#[test]
fn lib_test_round_trip() {
    let original = Message::new(1, 10, vec![0x48, 0x65, 0x6C, 0x6C, 0x6F]);
    let bytes = original.to_bytes();
    let parsed = parse(&bytes).expect("Parse failed");

    assert_eq!(parsed.version, original.version);
    assert_eq!(parsed.message_type, original.message_type);
    assert_eq!(parsed.payload, original.payload);
    assert_eq!(parsed.checksum, original.checksum);
}

#[test]
fn test_checksum_calculation() {
    assert_eq!(calculate_checksum(&[0x01, 0x02]), 0x03);
}

#[test]
fn test_bytes_to_u16() {
    assert_eq!(bytes_to_u16(&[0x00, 0x0A]), 10);
}

#[test]
fn error_texts_are_exact() {
    assert_eq!(
        ParseError::InvalidVersion { version: 255 }.to_string(),
        "Unsupported protocol version: 255 (only version 1 is supported)"
    );
    assert_eq!(
        ParseError::IncompletPayload { expected: 10, actual: 7 }.to_string(),
        "Incomplete payload: expected 10 bytes, but only 7 available"
    );
    assert_eq!(
        ParseError::ChecksumMismatch { expected: 0x0A, calculated: 0xF0 }.to_string(),
        "Checksum mismatch: expected 0x0A, but calculated 0xF0"
    );
    assert_eq!(
        ParseError::PayloadTooLarge { size: 70000, max: 65535 }.to_string(),
        "Payload too large: 70000 bytes (maximum 65535 allowed)"
    );
    assert_eq!(ParseError::MessageTooShort { actual: 0 }.to_string(),
        "Message data too short: 0 bytes (minimum 5 required)");
}

#[test]
fn errors_name_what_was_found() {
    assert_eq!(parse(&[1, 2]), Err(ParseError::MessageTooShort { actual: 2 }));
    assert_eq!(parse(&[9, 0, 0, 0, 0]), Err(ParseError::InvalidVersion { version: 9 }));
    assert_eq!(
        parse(&[1, 0, 0, 4, 1, 2, 3]),
        Err(ParseError::IncompletPayload { expected: 9, actual: 7 })
    );
    assert_eq!(
        parse(&[1, 0, 0, 2, 0x0F, 0xF0, 0x00]),
        Err(ParseError::ChecksumMismatch { expected: 0x00, calculated: 0xFF })
    );
}

#[test]
fn message_text_is_exact() {
    let msg = Message::new(1, 42, vec![0xAA, 0x55, 0x0B]);
    assert_eq!(msg.to_string(), "Message v1 type=42 payload_len=3 checksum=0xF4");
    let empty = Message::new(1, 0, vec![]);
    assert_eq!(empty.to_string(), "Message v1 type=0 payload_len=0 checksum=0x00");
}

#[test]
fn hex_encode_separates_bytes_with_blanks() {
    assert_eq!(hex_encode(&[]), "");
    assert_eq!(hex_encode(&[0x0A]), "0A");
    assert_eq!(hex_encode(&[0x01, 0xFF, 0x10]), "01 FF 10");
}

#[test]
fn parse_ignores_what_follows_the_message() {
    let mut bytes = Message::new(1, 3, vec![9, 9, 1]).to_bytes();
    bytes.extend_from_slice(&[0xDE, 0xAD]);
    let msg = parse(&bytes).unwrap();
    assert_eq!(msg, Message::new(1, 3, vec![9, 9, 1]));
}

#[test]
fn parse_multiple_stops_at_the_first_error() {
    let mut data = Message::new(1, 1, vec![1]).to_bytes();
    data.extend_from_slice(&[1, 2, 0]);
    assert_eq!(parse_multiple(&data), Err(ParseError::MessageTooShort { actual: 3 }));
    assert_eq!(parse_multiple(&[]), Ok(vec![]));
}

#[test]
fn length_field_holds_payload_length_big_endian() {
    let msg = Message::new(1, 1, vec![7u8; 300]);
    let bytes = msg.to_bytes();
    assert_eq!(bytes.len(), 305);
    assert_eq!(bytes[2], 1);
    assert_eq!(bytes[3], 44);
    assert_eq!(parse(&bytes).unwrap().payload.len(), 300);
}
