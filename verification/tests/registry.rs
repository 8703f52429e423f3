use macsec_packet_analyzer::error::ParseError;
use macsec_packet_analyzer::protocol::registry::extract_provisional_flow_id;
use macsec_packet_analyzer::protocol::ProtocolRegistry;
use macsec_packet_analyzer::types::{FlowId, IpAddress};

fn create_macsec_packet() -> Vec<u8> {
    let mut packet = vec![0u8; 30];
    packet[12] = 0x88;
    packet[13] = 0xE5;
    packet
}

fn create_ipv4_tcp_packet() -> Vec<u8> {
    let mut packet = vec![0u8; 42];
    packet[12] = 0x08;
    packet[13] = 0x00;
    packet[14] = 0x45;
    packet[23] = 6;
    packet[26] = 192;
    packet[27] = 168;
    packet[28] = 1;
    packet[29] = 10;
    packet[30] = 10;
    packet[31] = 0;
    packet[32] = 0;
    packet[33] = 1;
    packet[34] = 0x30;
    packet[35] = 0x39;
    packet[36] = 0x00;
    packet[37] = 0x50;
    packet
}

fn create_ipv4_udp_packet() -> Vec<u8> {
    let mut packet = vec![0u8; 42];
    packet[12] = 0x08;
    packet[13] = 0x00;
    packet[14] = 0x45;
    packet[23] = 17;
    packet[26] = 192;
    packet[27] = 168;
    packet[28] = 1;
    packet[29] = 10;
    packet[30] = 10;
    packet[31] = 0;
    packet[32] = 0;
    packet[33] = 1;
    packet[34] = 0x00;
    packet[35] = 0x35;
    packet[36] = 0x00;
    packet[37] = 0x35;
    packet
}

fn create_ipv4_esp_packet() -> Vec<u8> {
    let mut packet = vec![0u8; 50];
    packet[12] = 0x08;
    packet[13] = 0x00;
    packet[14] = 0x45;
    packet[23] = 50;
    packet[26] = 192;
    packet[27] = 168;
    packet[28] = 1;
    packet[29] = 10;
    packet[30] = 10;
    packet[31] = 0;
    packet[32] = 0;
    packet[33] = 1;
    packet[34] = 0x00;
    packet[35] = 0x00;
    packet[36] = 0x00;
    packet[37] = 0x01;
    packet[38] = 0x00;
    packet[39] = 0x00;
    packet[40] = 0x00;
    packet[41] = 0x01;
    packet
}

#[test]
fn test_macsec_fast_path() {
    let mut registry = ProtocolRegistry::new();
    let packet = create_macsec_packet();

    let result = registry.detect_and_parse(&packet);
    assert!(result.is_ok());

    let stats = registry.get_stats();
    assert_eq!(stats.ethertype_fast_path, 1);
    assert_eq!(stats.cache_hits, 0);
    assert_eq!(stats.cache_misses, 0);
}

#[test]
fn test_ipv4_tcp_detection() {
    let mut registry = ProtocolRegistry::new();
    let packet = create_ipv4_tcp_packet();

    let result = registry.detect_and_parse(&packet);
    assert!(result.is_ok());

    let stats = registry.get_stats();
    assert_eq!(stats.cache_misses, 1);
}

#[test]
fn test_ipv4_udp_detection() {
    let mut registry = ProtocolRegistry::new();
    let packet = create_ipv4_udp_packet();

    let result = registry.detect_and_parse(&packet);
    assert!(result.is_ok());

    let stats = registry.get_stats();
    assert_eq!(stats.cache_misses, 1);
}

#[test]
fn test_ipv4_esp_detection() {
    let mut registry = ProtocolRegistry::new();
    let packet = create_ipv4_esp_packet();

    let result = registry.detect_and_parse(&packet);
    assert!(result.is_ok());

    let stats = registry.get_stats();
    assert_eq!(stats.cache_misses, 1);
}

#[test]
fn test_cache_hit_on_second_packet() {
    let mut registry = ProtocolRegistry::new();
    let packet = create_ipv4_tcp_packet();

    let result = registry.detect_and_parse(&packet);
    assert!(result.is_ok());
    let stats = registry.get_stats();
    assert_eq!(stats.cache_misses, 1);
    assert_eq!(stats.cache_hits, 0);

    let result = registry.detect_and_parse(&packet);
    assert!(result.is_ok());
    let stats = registry.get_stats();
    assert_eq!(stats.cache_misses, 1);
    assert_eq!(stats.cache_hits, 1);
}

#[test]
fn test_unknown_ethertype() {
    let mut registry = ProtocolRegistry::new();
    let mut packet = vec![0u8; 20];
    packet[12] = 0x08;
    packet[13] = 0x06;

    let result = registry.detect_and_parse(&packet);
    assert!(result.is_ok());
    assert!(result.unwrap().is_none());

    let stats = registry.get_stats();
    assert_eq!(stats.unknown_protocol, 1);
}

#[test]
fn test_packet_too_short() {
    let mut registry = ProtocolRegistry::new();
    let packet = vec![0u8; 10];

    let result = registry.detect_and_parse(&packet);
    assert!(result.is_ok());
    assert!(result.unwrap().is_none());
}

#[test]
fn test_clear_cache() {
    let mut registry = ProtocolRegistry::new();
    let packet = create_ipv4_tcp_packet();

    let _ = registry.detect_and_parse(&packet);
    let stats = registry.get_stats();
    assert!(stats.cache_size > 0);

    registry.clear_cache();
    let stats = registry.get_stats();
    assert_eq!(stats.cache_size, 0);
}

#[test]
fn test_stats_isolation() {
    let mut registry1 = ProtocolRegistry::new();
    let registry2 = ProtocolRegistry::new();

    let packet = create_macsec_packet();

    let _ = registry1.detect_and_parse(&packet);
    let stats1 = registry1.get_stats();
    assert_eq!(stats1.ethertype_fast_path, 1);

    let stats2 = registry2.get_stats();
    assert_eq!(stats2.ethertype_fast_path, 0);
}

#[test]
fn hello_world_macsec_frame_takes_the_fast_path() {
    let mut frame = vec![0u8; 90];
    frame[12] = 0x88;
    frame[13] = 0xE5;
    frame[14] = 0x2F;
    frame[15] = 0x2E;
    frame[16..20].copy_from_slice(&[0, 0, 0, 7]);
    frame[20..28].copy_from_slice(&[0x00, 0x11, 0x22, 0x33, 0x44, 0x55, 0xAA, 0xBB]);
    let mut registry = ProtocolRegistry::new();
    let info = registry.detect_and_parse(&frame).unwrap().unwrap();
    assert_eq!(info.sequence_number, 7);
    assert_eq!(info.flow_id, FlowId::MACsec { sci: 0x001122334455AABB });
    assert_eq!(info.payload_length, 46);
    let stats = registry.get_stats();
    assert_eq!(stats.ethertype_fast_path, 1);
    assert_eq!(stats.cache_misses, 0);
    assert_eq!(stats.cache_hits, 0);
    assert_eq!(stats.unknown_protocol, 0);
    assert_eq!(stats.cache_size, 0);
}

#[test]
fn every_later_packet_of_a_flow_hits_the_cache() {
    let mut registry = ProtocolRegistry::new();
    let mut packet = create_ipv4_esp_packet();
    let first = registry.detect_and_parse(&packet).unwrap().unwrap();
    assert_eq!(first.flow_id, FlowId::IPsec { spi: 1, dst_ip: IpAddress::v4(10, 0, 0, 1) });
    for seq in 2u8..6 {
        packet[41] = seq;
        let info = registry.detect_and_parse(&packet).unwrap().unwrap();
        assert_eq!(info.sequence_number, seq as u32);
        assert_eq!(info.flow_id, first.flow_id);
    }
    let stats = registry.get_stats();
    assert_eq!(stats.cache_misses, 1);
    assert_eq!(stats.cache_hits, 4);
    assert_eq!(stats.cache_size, 1);
}

#[test]
fn unsupported_ip_protocol_counts_miss_and_unknown() {
    let mut registry = ProtocolRegistry::new();
    let mut packet = create_ipv4_tcp_packet();
    packet[23] = 1; // ICMP
    assert!(registry.detect_and_parse(&packet).unwrap().is_none());
    let stats = registry.get_stats();
    assert_eq!(stats.cache_misses, 1);
    assert_eq!(stats.unknown_protocol, 1);
    assert_eq!(stats.cache_size, 0);
}

#[test]
fn parse_error_is_returned_and_not_cached() {
    let mut registry = ProtocolRegistry::new();
    let mut packet = create_ipv4_esp_packet();
    packet.truncate(42);
    packet[14] = 0x46;
    assert!(matches!(registry.detect_and_parse(&packet), Err(ParseError::PacketTooShort)));
    let stats = registry.get_stats();
    assert_eq!(stats.cache_misses, 1);
    assert_eq!(stats.cache_hits, 0);
    assert_eq!(stats.cache_size, 0);
    assert_eq!(stats.unknown_protocol, 0);
}

#[test]
fn cached_flow_with_truncated_packet_reports_the_error_without_a_hit() {
    let mut registry = ProtocolRegistry::new();
    let good = create_ipv4_esp_packet();
    registry.detect_and_parse(&good).unwrap().unwrap();
    // same flow, but the frame ends inside the ESP header
    let mut short = good.clone();
    short.truncate(45);
    short[14] = 0x46;
    short[38] = 0;
    short[39] = 0;
    short[40] = 0;
    short[41] = 1;
    assert_eq!(
        extract_provisional_flow_id(&short),
        Some(FlowId::IPsec { spi: 1, dst_ip: IpAddress::v4(10, 0, 0, 1) })
    );
    assert!(registry.detect_and_parse(&short).is_err());
    let stats = registry.get_stats();
    assert_eq!(stats.cache_hits, 0);
    assert_eq!(stats.cache_misses, 1);
    assert_eq!(stats.cache_size, 1);
}

#[test]
fn provisional_flow_id_needs_a_whole_ipv4_frame() {
    assert_eq!(extract_provisional_flow_id(&vec![0u8; 41]), None);
    let tcp = create_ipv4_tcp_packet();
    assert_eq!(
        extract_provisional_flow_id(&tcp),
        Some(FlowId::GenericL3 {
            src_ip: IpAddress::v4(192, 168, 1, 10),
            dst_ip: IpAddress::v4(10, 0, 0, 1),
            src_port: 12345,
            dst_port: 80,
            protocol: 6,
        })
    );
    let mut other = tcp.clone();
    other[23] = 47;
    assert_eq!(extract_provisional_flow_id(&other), None);
}
