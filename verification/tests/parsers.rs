use byteorder::{BigEndian, ByteOrder};
use macsec_packet_analyzer::error::ParseError;
use macsec_packet_analyzer::protocol::{
    GenericL3Parser, IPsecParser, MACsecParser, SequenceParser,
};
use macsec_packet_analyzer::types::{FlowId, IpAddress};

const IP_PROTOCOL_ESP: u8 = 50;
const IP_PROTOCOL_TCP: u8 = 6;
const IP_PROTOCOL_UDP: u8 = 17;

fn create_tcp_packet(
    src_ip: [u8; 4],
    dst_ip: [u8; 4],
    src_port: u16,
    dst_port: u16,
    seq: u32,
) -> Vec<u8> {
    let mut packet = Vec::new();

    packet.extend_from_slice(&[0x00, 0x11, 0x22, 0x33, 0x44, 0x55]);
    packet.extend_from_slice(&[0x66, 0x77, 0x88, 0x99, 0xAA, 0xBB]);
    packet.extend_from_slice(&[0x08, 0x00]);

    packet.push(0x45);
    packet.push(0x00);
    let total_len: u16 = 20 + 20 + 10;
    packet.extend_from_slice(&total_len.to_be_bytes());
    packet.extend_from_slice(&[0x00, 0x00]);
    packet.extend_from_slice(&[0x00, 0x00]);
    packet.push(64);
    packet.push(IP_PROTOCOL_TCP);
    packet.extend_from_slice(&[0x00, 0x00]);
    packet.extend_from_slice(&src_ip);
    packet.extend_from_slice(&dst_ip);

    packet.extend_from_slice(&src_port.to_be_bytes());
    packet.extend_from_slice(&dst_port.to_be_bytes());
    packet.extend_from_slice(&seq.to_be_bytes());
    packet.extend_from_slice(&[0x00, 0x00, 0x00, 0x00]);
    packet.push(0x50);
    packet.push(0x00);
    packet.extend_from_slice(&[0xFF, 0xFF]);
    packet.extend_from_slice(&[0x00, 0x00]);
    packet.extend_from_slice(&[0x00, 0x00]);

    packet.extend_from_slice(&[0u8; 10]);

    packet
}

fn create_udp_packet(src_ip: [u8; 4], dst_ip: [u8; 4], src_port: u16, dst_port: u16) -> Vec<u8> {
    let mut packet = Vec::new();

    packet.extend_from_slice(&[0x00, 0x11, 0x22, 0x33, 0x44, 0x55]);
    packet.extend_from_slice(&[0x66, 0x77, 0x88, 0x99, 0xAA, 0xBB]);
    packet.extend_from_slice(&[0x08, 0x00]);

    packet.push(0x45);
    packet.push(0x00);
    let total_len: u16 = 20 + 8 + 10;
    packet.extend_from_slice(&total_len.to_be_bytes());
    packet.extend_from_slice(&[0x00, 0x00]);
    packet.extend_from_slice(&[0x00, 0x00]);
    packet.push(64);
    packet.push(IP_PROTOCOL_UDP);
    packet.extend_from_slice(&[0x00, 0x00]);
    packet.extend_from_slice(&src_ip);
    packet.extend_from_slice(&dst_ip);

    packet.extend_from_slice(&src_port.to_be_bytes());
    packet.extend_from_slice(&dst_port.to_be_bytes());
    let udp_len: u16 = 8 + 10;
    packet.extend_from_slice(&udp_len.to_be_bytes());
    packet.extend_from_slice(&[0x00, 0x00]);

    packet.extend_from_slice(&[0u8; 10]);

    packet
}

fn create_esp_packet(spi: u32, seq: u32, dst_ip: [u8; 4]) -> Vec<u8> {
    let mut packet = Vec::new();

    packet.extend_from_slice(&[0x00, 0x11, 0x22, 0x33, 0x44, 0x55]);
    packet.extend_from_slice(&[0x66, 0x77, 0x88, 0x99, 0xAA, 0xBB]);
    packet.extend_from_slice(&[0x08, 0x00]);

    packet.push(0x45);
    packet.push(0x00);
    let total_len: u16 = 20 + 8 + 16;
    packet.extend_from_slice(&total_len.to_be_bytes());
    packet.extend_from_slice(&[0x00, 0x00]);
    packet.extend_from_slice(&[0x00, 0x00]);
    packet.push(64);
    packet.push(IP_PROTOCOL_ESP);
    packet.extend_from_slice(&[0x00, 0x00]);
    packet.extend_from_slice(&[192, 168, 1, 1]);
    packet.extend_from_slice(&dst_ip);

    packet.extend_from_slice(&spi.to_be_bytes());
    packet.extend_from_slice(&seq.to_be_bytes());

    packet.extend_from_slice(&[0u8; 16]);

    packet
}

// Generic L3

#[test]
fn test_generic_l3_parser_tcp() {
    let parser = GenericL3Parser;
    let packet = create_tcp_packet([192, 168, 1, 10], [10, 0, 0, 1], 12345, 80, 1000);

    let result = parser.parse_sequence(&packet).unwrap();
    assert!(result.is_some());

    let seq_info = result.unwrap();
    // 5-tuple flows carry the sentinel sequence number
    assert_eq!(seq_info.sequence_number, 0);

    match seq_info.flow_id {
        FlowId::GenericL3 { src_ip, dst_ip, src_port, dst_port, protocol } => {
            assert_eq!(src_ip, IpAddress::v4(192, 168, 1, 10));
            assert_eq!(dst_ip, IpAddress::v4(10, 0, 0, 1));
            assert_eq!(src_port, 12345);
            assert_eq!(dst_port, 80);
            assert_eq!(protocol, IP_PROTOCOL_TCP);
        }
        _ => panic!("Expected GenericL3 flow ID"),
    }
}

#[test]
fn test_generic_l3_parser_udp() {
    let parser = GenericL3Parser;
    let packet = create_udp_packet([192, 168, 1, 10], [10, 0, 0, 1], 53, 53);

    // UDP flows are tracked like TCP flows, with the sentinel sequence number
    let result = parser.parse_sequence(&packet).unwrap();
    let seq_info = result.unwrap();
    assert_eq!(seq_info.sequence_number, 0);
    assert_eq!(seq_info.payload_length, 10);
    assert_eq!(
        seq_info.flow_id,
        FlowId::GenericL3 {
            src_ip: IpAddress::v4(192, 168, 1, 10),
            dst_ip: IpAddress::v4(10, 0, 0, 1),
            src_port: 53,
            dst_port: 53,
            protocol: IP_PROTOCOL_UDP,
        }
    );
}

#[test]
fn test_generic_l3_matches_tcp() {
    let parser = GenericL3Parser;
    let packet = create_tcp_packet([192, 168, 1, 10], [10, 0, 0, 1], 12345, 80, 1000);

    assert!(parser.matches(&packet));
}

#[test]
fn test_generic_l3_matches_udp() {
    let parser = GenericL3Parser;
    let packet = create_udp_packet([192, 168, 1, 10], [10, 0, 0, 1], 53, 53);

    assert!(parser.matches(&packet));
}

#[test]
fn test_generic_l3_wrong_protocol() {
    let parser = GenericL3Parser;
    let mut packet = create_tcp_packet([192, 168, 1, 10], [10, 0, 0, 1], 12345, 80, 1000);

    packet[23] = 50;

    assert!(!parser.matches(&packet));
}

#[test]
fn test_generic_l3_too_short() {
    let parser = GenericL3Parser;
    let packet = vec![0u8; 20];

    assert!(!parser.matches(&packet));
}

#[test]
fn test_generic_l3_tcp_payload_extraction() {
    let parser = GenericL3Parser;
    let packet = create_tcp_packet([192, 168, 1, 10], [10, 0, 0, 1], 12345, 80, 1000);

    let result = parser.parse_sequence(&packet).unwrap().unwrap();
    assert_eq!(result.payload_length, 10);
}

#[test]
fn test_generic_l3_multiple_tcp_flows() {
    let parser = GenericL3Parser;

    let packet1 = create_tcp_packet([192, 168, 1, 10], [10, 0, 0, 1], 12345, 80, 100);
    let packet2 = create_tcp_packet([192, 168, 1, 10], [10, 0, 0, 1], 12346, 80, 200);

    let result1 = parser.parse_sequence(&packet1).unwrap().unwrap();
    let result2 = parser.parse_sequence(&packet2).unwrap().unwrap();

    match result1.flow_id {
        FlowId::GenericL3 { src_port, .. } => assert_eq!(src_port, 12345),
        _ => panic!("Expected GenericL3 flow ID"),
    }

    match result2.flow_id {
        FlowId::GenericL3 { src_port, .. } => assert_eq!(src_port, 12346),
        _ => panic!("Expected GenericL3 flow ID"),
    }
}

#[test]
fn test_generic_l3_tcp_sequence_wraparound() {
    let parser = GenericL3Parser;
    let packet = create_tcp_packet([192, 168, 1, 10], [10, 0, 0, 1], 12345, 80, u32::MAX);

    // whatever the TCP sequence number, the sentinel is reported
    let result = parser.parse_sequence(&packet).unwrap().unwrap();
    assert_eq!(result.sequence_number, 0);
}

#[test]
fn test_generic_l3_wrong_ethertype() {
    let parser = GenericL3Parser;
    let mut packet = create_tcp_packet([192, 168, 1, 10], [10, 0, 0, 1], 12345, 80, 1000);

    packet[12] = 0x86;
    packet[13] = 0xDD;

    assert!(!parser.matches(&packet));
}

#[test]
fn test_generic_l3_tcp_port_extraction() {
    let parser = GenericL3Parser;
    let packet = create_tcp_packet([192, 168, 1, 100], [10, 0, 0, 1], 54321, 443, 5000);

    let result = parser.parse_sequence(&packet).unwrap().unwrap();

    match result.flow_id {
        FlowId::GenericL3 { src_ip, dst_ip, src_port, dst_port, protocol } => {
            assert_eq!(src_ip, IpAddress::v4(192, 168, 1, 100));
            assert_eq!(dst_ip, IpAddress::v4(10, 0, 0, 1));
            assert_eq!(src_port, 54321);
            assert_eq!(dst_port, 443);
            assert_eq!(protocol, IP_PROTOCOL_TCP);
        }
        _ => panic!("Expected GenericL3 flow ID"),
    }
}

#[test]
fn generic_l3_honours_tcp_data_offset() {
    let parser = GenericL3Parser;
    let mut packet = create_tcp_packet([1, 2, 3, 4], [5, 6, 7, 8], 1, 2, 0);
    // data offset 7 words: 8 of the 30 transport bytes past the 20-byte header are options
    packet[34 + 12] = 0x70;
    let info = parser.parse_sequence(&packet).unwrap().unwrap();
    assert_eq!(info.payload_length, 2);
    // a header longer than the segment leaves no payload
    packet[34 + 12] = 0xF0;
    let info = parser.parse_sequence(&packet).unwrap().unwrap();
    assert_eq!(info.payload_length, 0);
}

#[test]
fn generic_l3_respects_ip_header_length() {
    let parser = GenericL3Parser;
    let mut packet = create_tcp_packet([1, 2, 3, 4], [5, 6, 7, 8], 1000, 2000, 0);
    // IHL 6: the transport header starts four bytes later
    packet[14] = 0x46;
    packet[38] = 0x12;
    packet[39] = 0x34;
    packet[40] = 0x56;
    packet[41] = 0x78;
    let info = parser.parse_sequence(&packet).unwrap().unwrap();
    match info.flow_id {
        FlowId::GenericL3 { src_port, dst_port, .. } => {
            assert_eq!(src_port, 0x1234);
            assert_eq!(dst_port, 0x5678);
        }
        _ => panic!("Expected GenericL3 flow ID"),
    }
}

#[test]
fn generic_l3_truncated_transport_is_an_error() {
    let parser = GenericL3Parser;
    let mut packet = vec![0u8; 42];
    packet[12] = 0x08;
    packet[14] = 0x4F; // IHL 15: header ends at 74, beyond the frame
    packet[23] = 6;
    assert!(matches!(parser.parse_sequence(&packet), Err(ParseError::PacketTooShort)));
    packet[14] = 0x46; // IHL 6: four transport bytes, too few for TCP
    assert!(matches!(parser.parse_sequence(&packet), Err(ParseError::PacketTooShort)));
    packet[23] = 17; // enough for the ports of UDP
    let info = parser.parse_sequence(&packet).unwrap().unwrap();
    assert_eq!(info.payload_length, 0);
    assert_eq!(parser.protocol_name(), "Generic-L3");
}

// IPsec

#[test]
fn test_ipsec_parser_valid_packet() {
    let parser = IPsecParser;
    let packet = create_esp_packet(0x12345678, 42, [10, 0, 0, 1]);

    let result = parser.parse_sequence(&packet).unwrap();
    assert!(result.is_some());

    let seq_info = result.unwrap();
    assert_eq!(seq_info.sequence_number, 42);

    match seq_info.flow_id {
        FlowId::IPsec { spi, dst_ip } => {
            assert_eq!(spi, 0x12345678);
            assert_eq!(dst_ip, IpAddress::v4(10, 0, 0, 1));
        }
        _ => panic!("Expected IPsec flow ID"),
    }
}

#[test]
fn test_ipsec_parser_wrong_protocol() {
    let parser = IPsecParser;
    let mut packet = create_esp_packet(0x12345678, 42, [10, 0, 0, 1]);

    packet[23] = 6;

    let result = parser.parse_sequence(&packet).unwrap();
    assert!(result.is_none());
}

#[test]
fn test_ipsec_parser_too_short() {
    let parser = IPsecParser;
    let packet = vec![0u8; 20];

    let result = parser.parse_sequence(&packet).unwrap();
    assert!(result.is_none());
}

#[test]
fn test_ipsec_matches() {
    let parser = IPsecParser;
    let packet = create_esp_packet(0x12345678, 42, [10, 0, 0, 1]);

    assert!(parser.matches(&packet));
}

#[test]
fn test_ipsec_sequence_wraparound() {
    let parser = IPsecParser;
    let packet = create_esp_packet(0xAABBCCDD, u32::MAX, [172, 16, 0, 1]);

    let result = parser.parse_sequence(&packet).unwrap();
    assert!(result.is_some());

    let seq_info = result.unwrap();
    assert_eq!(seq_info.sequence_number, u32::MAX);
}

#[test]
fn test_ipsec_parser_multiple_flows() {
    let parser = IPsecParser;

    let packet1 = create_esp_packet(0x11111111, 100, [10, 0, 0, 1]);
    let packet2 = create_esp_packet(0x22222222, 200, [10, 0, 0, 1]);

    let result1 = parser.parse_sequence(&packet1).unwrap().unwrap();
    let result2 = parser.parse_sequence(&packet2).unwrap().unwrap();

    match result1.flow_id {
        FlowId::IPsec { spi, .. } => assert_eq!(spi, 0x11111111),
        _ => panic!("Expected IPsec flow ID"),
    }

    match result2.flow_id {
        FlowId::IPsec { spi, .. } => assert_eq!(spi, 0x22222222),
        _ => panic!("Expected IPsec flow ID"),
    }
}

#[test]
fn test_ipsec_payload_length() {
    let parser = IPsecParser;
    let packet = create_esp_packet(0x12345678, 42, [10, 0, 0, 1]);

    let result = parser.parse_sequence(&packet).unwrap().unwrap();
    assert_eq!(result.payload_length, 16);
}

#[test]
fn test_ipsec_wrong_ethertype() {
    let parser = IPsecParser;
    let mut packet = create_esp_packet(0x12345678, 42, [10, 0, 0, 1]);

    packet[12] = 0x86;
    packet[13] = 0xDD;

    assert!(!parser.matches(&packet));
}

#[test]
fn ipsec_scenario_fields() {
    let parser = IPsecParser;
    let packet = create_esp_packet(0x12345678, 42, [10, 0, 0, 1]);
    let info = parser.parse_sequence(&packet).unwrap().unwrap();
    assert_eq!(info.sequence_number, 42);
    assert_eq!(info.flow_id, FlowId::IPsec { spi: 0x12345678, dst_ip: IpAddress::V4(0x0A000001) });
    assert_eq!(info.payload_length, 16);
    assert_eq!(parser.protocol_name(), "IPsec-ESP");
}

#[test]
fn ipsec_truncated_esp_header_is_an_error() {
    let parser = IPsecParser;
    let mut packet = create_esp_packet(1, 2, [10, 0, 0, 1]);
    packet.truncate(42);
    packet[14] = 0x46; // IHL 6: ESP header would end at 46
    assert!(matches!(parser.parse_sequence(&packet), Err(ParseError::PacketTooShort)));
}

// MACsec

#[test]
fn test_macsec_parser_valid_packet() {
    let mut packet = vec![0u8; 45];

    packet[0..6].copy_from_slice(&[0x00, 0x11, 0x22, 0x33, 0x44, 0x55]);
    packet[6..12].copy_from_slice(&[0x66, 0x77, 0x88, 0x99, 0xAA, 0xBB]);

    packet[12] = 0x88;
    packet[13] = 0xE5;

    packet[14] = 0x00;
    packet[15] = 0x00;

    BigEndian::write_u32(&mut packet[16..20], 123);

    BigEndian::write_u64(&mut packet[20..28], 0x001122334455AABB);

    let parser = MACsecParser;
    let result = parser.parse_sequence(&packet).unwrap();

    assert!(result.is_some());
    let seq_info = result.unwrap();
    assert_eq!(seq_info.sequence_number, 123);
    assert!(matches!(seq_info.flow_id, FlowId::MACsec { sci: 0x001122334455AABB }));
}

#[test]
fn test_macsec_parser_wrong_ethertype() {
    let mut packet = vec![0u8; 30];
    packet[12] = 0x08;
    packet[13] = 0x00;

    let parser = MACsecParser;
    let result = parser.parse_sequence(&packet).unwrap();
    assert!(result.is_none());
}

#[test]
fn test_macsec_parser_too_short() {
    let packet = vec![0u8; 10];

    let parser = MACsecParser;
    let result = parser.parse_sequence(&packet).unwrap();
    assert!(result.is_none());
}

#[test]
fn test_macsec_parser_minimum_valid_size() {
    let mut packet = vec![0u8; 30];

    packet[12] = 0x88;
    packet[13] = 0xE5;

    BigEndian::write_u32(&mut packet[16..20], 42);
    BigEndian::write_u64(&mut packet[20..28], 0xAABBCCDDEEFF0011);

    let parser = MACsecParser;
    let result = parser.parse_sequence(&packet).unwrap();

    assert!(result.is_some());
    let seq_info = result.unwrap();
    assert_eq!(seq_info.sequence_number, 42);
}

#[test]
fn macsec_reads_big_endian_fields_and_payload() {
    let mut packet = vec![0u8; 90];
    packet[12] = 0x88;
    packet[13] = 0xE5;
    packet[16..20].copy_from_slice(&[0x01, 0x02, 0x03, 0x04]);
    packet[20..28].copy_from_slice(&[0x11, 0x22, 0x33, 0x44, 0x55, 0x66, 0x77, 0x88]);
    let parser = MACsecParser;
    let info = parser.parse_sequence(&packet).unwrap().unwrap();
    assert_eq!(info.sequence_number, 0x01020304);
    assert_eq!(info.flow_id, FlowId::MACsec { sci: 0x1122334455667788 });
    assert_eq!(info.payload_length, 46);
    assert!(parser.matches(&packet));
    assert_eq!(parser.protocol_name(), "MACsec");
    // nothing is left between header and check value in a frame of 44 bytes or less
    packet.truncate(44);
    assert_eq!(parser.parse_sequence(&packet).unwrap().unwrap().payload_length, 0);
}

#[test]
fn macsec_frame_without_tag_is_an_error() {
    let mut packet = vec![0u8; 29];
    packet[12] = 0x88;
    packet[13] = 0xE5;
    let parser = MACsecParser;
    assert!(matches!(parser.parse_sequence(&packet), Err(ParseError::PacketTooShort)));
    assert_eq!(ParseError::PacketTooShort.to_string(), "Packet too short for protocol");
    assert_eq!(
        ParseError::InvalidFormat("bad".to_string()).to_string(),
        "Invalid protocol format: bad"
    );
}
