use macsec_packet_analyzer::message::{parse, parse_multiple, Message};

#[test]
fn integration_tests_test_parse_hello_world() {
    let payload = b"Hello World";
    let expected_checksum = payload.iter().fold(0u8, |acc, &b| acc ^ b);

    let packet = vec![
        0x01,
        0x05,
        0x00, 0x0B,
        0x48, 0x65, 0x6C, 0x6C, 0x6F,
        0x20,
        0x57, 0x6F, 0x72, 0x6C, 0x64,
        expected_checksum,
    ];

    let msg = parse(&packet).expect("Failed to parse Hello World message");

    assert_eq!(msg.version, 1);
    assert_eq!(msg.message_type, 5);
    assert_eq!(msg.payload.len(), 11);
    assert_eq!(msg.payload, payload);
    assert_eq!(msg.checksum, expected_checksum);

    let display_str = msg.to_string();
    assert!(display_str.contains("v1"));
    assert!(display_str.contains("type=5"));
    assert!(display_str.contains("payload_len=11"));
}

#[test]
fn integration_tests_test_round_trip() {
    let original_payload = vec![1, 2, 3, 4, 5, 0xFF, 0xAA, 0x55, 0x00];
    let original = Message::new(1, 10, original_payload.clone());

    let bytes = original.to_bytes();

    let parsed = parse(&bytes).expect("Failed to parse serialized message");

    assert_eq!(parsed.version, original.version);
    assert_eq!(parsed.message_type, original.message_type);
    assert_eq!(parsed.payload, original.payload);
    assert_eq!(parsed.checksum, original.checksum);

    assert_eq!(parsed.to_bytes(), bytes);
}

#[test]
fn integration_tests_test_parse_multiple_messages() {
    let msg1 = Message::new(1, 1, vec![0x11, 0x22, 0x33]);
    let msg2 = Message::new(1, 2, vec![0xAA, 0xBB, 0xCC, 0xDD]);
    let msg3 = Message::new(1, 3, vec![]);

    let mut combined = msg1.to_bytes();
    combined.extend_from_slice(&msg2.to_bytes());
    combined.extend_from_slice(&msg3.to_bytes());

    let messages = parse_multiple(&combined).expect("Failed to parse multiple messages");

    assert_eq!(messages.len(), 3);

    assert_eq!(messages[0].message_type, 1);
    assert_eq!(messages[0].payload, vec![0x11, 0x22, 0x33]);

    assert_eq!(messages[1].message_type, 2);
    assert_eq!(messages[1].payload, vec![0xAA, 0xBB, 0xCC, 0xDD]);

    assert_eq!(messages[2].message_type, 3);
    assert_eq!(messages[2].payload.is_empty(), true);
}

#[test]
fn integration_tests_test_parse_empty_payload() {
    let packet = vec![0x01, 0x05, 0x00, 0x00, 0x00];

    let msg = parse(&packet).expect("Failed to parse empty payload message");
    assert_eq!(msg.version, 1);
    assert_eq!(msg.message_type, 5);
    assert_eq!(msg.payload.len(), 0);
    assert_eq!(msg.checksum, 0);
}

#[test]
fn test_parse_large_payload() {
    let large_payload = vec![0x42; 1000];
    let msg = Message::new(1, 99, large_payload.clone());

    let bytes = msg.to_bytes();
    let parsed = parse(&bytes).expect("Failed to parse large payload");

    assert_eq!(parsed.payload.len(), 1000);
    assert_eq!(parsed.payload, large_payload);
}

#[test]
fn test_invalid_version() {
    for invalid_version in &[0, 2, 3, 255] {
        let packet = vec![*invalid_version, 0x05, 0x00, 0x00, 0x00];

        let result = parse(&packet);
        assert!(result.is_err(), "Should reject version {}", invalid_version);
    }
}

#[test]
fn test_checksum_validation() {
    let packet = vec![0x01, 0x05, 0x00, 0x03, 0x11, 0x22, 0x33, 0xFF];

    let result = parse(&packet);
    assert!(result.is_err(), "Should detect checksum mismatch");
}

#[test]
fn test_binary_payload_with_nulls() {
    let payload = vec![0x00, 0x01, 0x00, 0x02, 0x00, 0xFF];
    let msg = Message::new(1, 7, payload.clone());

    let bytes = msg.to_bytes();
    let parsed = parse(&bytes).expect("Failed to parse binary with nulls");

    assert_eq!(parsed.payload, payload);
}

#[test]
fn test_checksum_correctness() {
    let tests = vec![
        (vec![], 0u8),
        (vec![5], 5u8),
        (vec![5, 5], 0u8),
        (vec![1, 2, 3], 0u8),
        (vec![0xFF, 0xFF], 0u8),
        (vec![0xAA, 0x55], 0xFFu8),
    ];

    for (payload, expected_checksum) in tests {
        let msg = Message::new(1, 1, payload.clone());
        assert_eq!(msg.checksum, expected_checksum, "Checksum mismatch for payload {:?}", payload);

        let bytes = msg.to_bytes();
        let parsed = parse(&bytes).expect("Failed round-trip");
        assert_eq!(parsed.checksum, expected_checksum);
    }
}

#[test]
fn integration_tests_test_message_display() {
    let msg = Message::new(1, 42, vec![1, 2, 3, 4, 5]);
    let display = msg.to_string();

    assert!(display.contains("v1"));
    assert!(display.contains("type=42"));
    assert!(display.contains("payload_len=5"));
}

#[test]
fn test_stress_many_messages() {
    let mut combined = Vec::new();

    for i in 0..100 {
        let payload = vec![(i % 256) as u8; (i + 1) % 10];
        let msg = Message::new(1, (i % 256) as u8, payload);
        combined.extend_from_slice(&msg.to_bytes());
    }

    let messages = parse_multiple(&combined).expect("Stress test failed");
    assert_eq!(messages.len(), 100);

    assert_eq!(messages[0].message_type, 0);
    assert_eq!(messages[50].message_type, 50);
    assert_eq!(messages[99].message_type, 99);
}
