use macsec_packet_analyzer::types::{FlowId, IpAddress};

fn tcp_flow() -> FlowId {
    FlowId::GenericL3 {
        src_ip: IpAddress::v4(192, 168, 1, 10),
        dst_ip: IpAddress::v4(10, 0, 0, 1),
        src_port: 12345,
        dst_port: 80,
        protocol: 6,
    }
}

#[test]
fn textual_forms() {
    assert_eq!(
        FlowId::MACsec { sci: 0x0123456789abcdef }.to_string(),
        "MACsec { sci: 0x0123456789abcdef }"
    );
    assert_eq!(
        FlowId::IPsec { spi: 0x89abcdef, dst_ip: IpAddress::v4(10, 0, 0, 1) }.to_string(),
        "IPsec { spi: 0x89abcdef, dst: 10.0.0.1 }"
    );
    assert_eq!(tcp_flow().to_string(), "TCP { 192.168.1.10:12345 \u{2192} 10.0.0.1:80 }");
    let udp = FlowId::GenericL3 {
        src_ip: IpAddress::v4(0, 0, 0, 0),
        dst_ip: IpAddress::v4(255, 255, 255, 255),
        src_port: 0,
        dst_port: 65535,
        protocol: 17,
    };
    assert_eq!(udp.to_string(), "UDP { 0.0.0.0:0 \u{2192} 255.255.255.255:65535 }");
    assert_eq!(FlowId::MACsec { sci: 0 }.to_string(), "MACsec { sci: 0x0000000000000000 }");
    assert_eq!(
        FlowId::IPsec { spi: 1, dst_ip: IpAddress::V6(1) }.to_string(),
        "IPsec { spi: 0x00000001, dst: 0000:0000:0000:0000:0000:0000:0000:0001 }"
    );
}

#[test]
fn text_round_trips() {
    let flows = vec![
        FlowId::MACsec { sci: 0 },
        FlowId::MACsec { sci: u64::MAX },
        FlowId::MACsec { sci: 0x001122334455AABB },
        FlowId::IPsec { spi: 0x12345678, dst_ip: IpAddress::v4(10, 0, 0, 1) },
        FlowId::IPsec { spi: u32::MAX, dst_ip: IpAddress::v4(255, 255, 255, 255) },
        FlowId::IPsec { spi: 0, dst_ip: IpAddress::V6(0x20010db8_00000000_00000000_0000ff00) },
        tcp_flow(),
        FlowId::GenericL3 {
            src_ip: IpAddress::V6(u128::MAX),
            dst_ip: IpAddress::v4(1, 2, 3, 4),
            src_port: 65535,
            dst_port: 0,
            protocol: 17,
        },
    ];
    for flow in flows {
        let text = flow.to_string();
        assert_eq!(FlowId::parse(&text), Some(flow), "{}", text);
        assert_eq!(FlowId::new(&text), flow, "{}", text);
        assert!(flow.is_canonical());
    }
}

#[test]
fn other_texts_are_not_read() {
    for text in [
        "",
        "MACsec",
        "MACsec { sci: 0x0123456789ABCDEF }",
        "MACsec { sci: 0x123 }",
        "MACsec { sci: 0x0123456789abcdef } ",
        "IPsec { spi: 0x89abcdef, dst: 10.0.0.256 }",
        "IPsec { spi: 0x89abcdef, dst: 10.0.0.01 }",
        "IPsec { spi: 0x89abcdef, dst: 10.0.0 }",
        "TCP { 192.168.1.10:12345 -> 10.0.0.1:80 }",
        "TCP { 192.168.1.10:65536 \u{2192} 10.0.0.1:80 }",
        "TCP { 192.168.1.10:12345 \u{2192} 10.0.0.1 }",
        "Unknown { 1.2.3.4:1 \u{2192} 1.2.3.4:2 }",
        "GRE { 1 }",
    ] {
        assert_eq!(FlowId::parse(text), None, "{}", text);
    }
}

#[test]
fn new_falls_back_by_first_word() {
    assert_eq!(FlowId::new("MACsec something"), FlowId::MACsec { sci: 0 });
    assert_eq!(FlowId::new("garbage"), FlowId::MACsec { sci: 0 });
    assert_eq!(
        FlowId::new("IPsec { broken"),
        FlowId::IPsec { spi: 0, dst_ip: IpAddress::v4(0, 0, 0, 0) }
    );
    let zero_tuple = FlowId::GenericL3 {
        src_ip: IpAddress::v4(0, 0, 0, 0),
        dst_ip: IpAddress::v4(0, 0, 0, 0),
        src_port: 0,
        dst_port: 0,
        protocol: 6,
    };
    assert_eq!(FlowId::new("TCP ?"), zero_tuple);
    assert_eq!(FlowId::new("UDP ?"), zero_tuple);
}

#[test]
fn unknown_protocol_has_a_text_but_is_not_canonical() {
    let flow = FlowId::GenericL3 {
        src_ip: IpAddress::v4(1, 2, 3, 4),
        dst_ip: IpAddress::v4(5, 6, 7, 8),
        src_port: 1,
        dst_port: 2,
        protocol: 47,
    };
    assert!(!flow.is_canonical());
    assert_eq!(flow.to_string(), "Unknown { 1.2.3.4:1 \u{2192} 5.6.7.8:2 }");
    assert_eq!(FlowId::parse(&flow.to_string()), None);
}

#[test]
fn keys_tell_flows_apart() {
    let a = FlowId::IPsec { spi: 7, dst_ip: IpAddress::V4(7) };
    let b = FlowId::IPsec { spi: 7, dst_ip: IpAddress::V6(7) };
    let c = FlowId::MACsec { sci: 7 };
    assert_ne!(a.key(), b.key());
    assert_ne!(a.key(), c.key());
    assert_eq!(tcp_flow().key(), tcp_flow().key());
    assert!(tcp_flow().is_generic());
    assert!(!c.is_generic());
    assert_eq!(IpAddress::v4(10, 0, 0, 1), IpAddress::V4(0x0A000001));
    assert_eq!(IpAddress::octets(0xC0A8010A), (192, 168, 1, 10));
}
