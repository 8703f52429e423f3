use macsec_packet_analyzer::generator::{
    get_timestamp, next_drop_candidate, MACsecPacket, PcapGlobalHeader, PcapPacketHeader, SecTag,
};
use macsec_packet_analyzer::protocol::{MACsecParser, ProtocolRegistry, SequenceParser};
use macsec_packet_analyzer::types::{FlowId, Timestamp};

#[test]
fn sec_tag_layout() {
    let tag = SecTag::new(7, [0x00, 0x11, 0x22, 0x33, 0x44, 0x55], 0xAABB);
    assert_eq!(tag.tci_an, 0x2f);
    assert_eq!(
        tag.to_bytes(),
        vec![
            0x88, 0xE5, 0x2F, 0x2E, 0x00, 0x00, 0x00, 0x07, 0x00, 0x11, 0x22, 0x33, 0x44, 0x55,
            0xAA, 0xBB
        ]
    );
}

#[test]
fn generated_frame_is_parsed_back() {
    let frame = MACsecPacket::new(
        [0xaa, 0xbb, 0xcc, 0xdd, 0xee, 0xff],
        [0x00, 0x11, 0x22, 0x33, 0x44, 0x55],
        7,
        [0x00, 0x11, 0x22, 0x33, 0x44, 0x55],
        0xAABB,
    );
    assert_eq!(frame.payload.len(), 46);
    assert_eq!(frame.payload[0], 7);
    assert_eq!(frame.payload[45], 52);
    assert_eq!(frame.icv[15], 22);
    let bytes = frame.to_bytes();
    assert_eq!(bytes.len(), 90);
    assert_eq!(&bytes[0..6], &[0xaa, 0xbb, 0xcc, 0xdd, 0xee, 0xff]);
    assert_eq!(bytes[14], 0x2F);
    assert_eq!(bytes[15], 0x2E);

    let info = MACsecParser.parse_sequence(&bytes).unwrap().unwrap();
    assert_eq!(info.sequence_number, 7);
    assert_eq!(info.flow_id, FlowId::MACsec { sci: 0x001122334455AABB });
    assert_eq!(info.payload_length, 46);

    let mut registry = ProtocolRegistry::new();
    assert_eq!(registry.detect_and_parse(&bytes).unwrap(), Some(info));
    assert_eq!(registry.get_stats().ethertype_fast_path, 1);
}

#[test]
fn pattern_wraps_at_a_byte() {
    let frame = MACsecPacket::new([0; 6], [0; 6], 0x1FE, [0; 6], 1);
    assert_eq!(&frame.payload[0..4], &[0xFE, 0xFF, 0x00, 0x01]);
}

#[test]
fn pcap_headers_are_little_endian() {
    let global = PcapGlobalHeader::new();
    assert_eq!(
        global.to_bytes(),
        vec![
            0xd4, 0xc3, 0xb2, 0xa1, 0x02, 0x00, 0x04, 0x00, 0x00, 0x00, 0x00, 0x00, 0x00, 0x00,
            0x00, 0x00, 0xff, 0xff, 0x00, 0x00, 0x01, 0x00, 0x00, 0x00
        ]
    );
    let mut shifted = PcapGlobalHeader::new();
    shifted.thiszone = -2;
    assert_eq!(&shifted.to_bytes()[8..12], &[0xfe, 0xff, 0xff, 0xff]);
    let record = PcapPacketHeader::new(0x01020304, 5, 90);
    assert_eq!(record.incl_len, 90);
    assert_eq!(record.orig_len, 90);
    assert_eq!(
        record.to_bytes(),
        vec![0x04, 0x03, 0x02, 0x01, 5, 0, 0, 0, 90, 0, 0, 0, 90, 0, 0, 0]
    );
}

#[test]
fn timestamp_parts() {
    assert_eq!(get_timestamp(Timestamp::from_nanos(1_700_000_000_123_456_789)), (1_700_000_000, 123_456));
    assert_eq!(get_timestamp(Timestamp::from_secs(0x1_0000_0005)), (5, 0));
}

#[test]
fn drop_candidates_follow_the_generator() {
    let (seed, number) = next_drop_candidate(0, 100);
    assert_eq!(seed, 12345);
    assert_eq!(number, 12345 % 100 + 1);
    let (seed2, number2) = next_drop_candidate(seed, 100);
    assert_eq!(seed2, 12345u64 * 1103515245 + 12345);
    assert_eq!(number2 as u64, seed2 % 100 + 1);
    let (wrapped, one) = next_drop_candidate(u64::MAX, 1);
    assert_eq!(wrapped, u64::MAX.wrapping_mul(1103515245).wrapping_add(12345));
    assert_eq!(one, 1);
}
