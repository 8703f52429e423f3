use macsec_packet_analyzer::analysis::flow::FlowTracker;
use macsec_packet_analyzer::analysis::pipeline::{
    loop_action, process_single_packet, should_persist, should_persist_with, ExecutionTimer,
    LoopAction, LoopCounters, TimingStats,
};
use macsec_packet_analyzer::analysis::PacketAnalyzer;
use macsec_packet_analyzer::capture::af_packet::AfPacketCapture;
use macsec_packet_analyzer::capture::napatech::{
    NapatechCapture, NapatechCaptureMode, NapatechConfig, NtNetRxStat, NtStatus, ReadOutcome,
};
use macsec_packet_analyzer::capture::source::filter_unsupported;
use macsec_packet_analyzer::capture::XdpCapture;
use macsec_packet_analyzer::error::{AnalysisError, CaptureError, ParseError};
use macsec_packet_analyzer::protocol::registry::{parse_with, ParserKind};
use macsec_packet_analyzer::protocol::{MACsecParser, ProtocolRegistry};
use macsec_packet_analyzer::text::same_text;
use macsec_packet_analyzer::types::{
    AnalysisReport, FlowId, ProcessMetrics, RawPacket, Timestamp,
};

fn macsec_frame(pn: u32, sci: u64) -> Vec<u8> {
    let mut frame = vec![0u8; 60];
    frame[12] = 0x88;
    frame[13] = 0xE5;
    frame[16..20].copy_from_slice(&pn.to_be_bytes());
    frame[20..28].copy_from_slice(&sci.to_be_bytes());
    frame
}

fn raw(data: Vec<u8>, micros: u64) -> RawPacket {
    let length = data.len();
    RawPacket { data, timestamp: Timestamp::from_micros(micros), length }
}

#[test]
fn test_analyzer_basic() {
    let packets = vec![
        raw(macsec_frame(1, 1), 0),
        raw(macsec_frame(2, 1), 1),
        raw(macsec_frame(3, 1), 2),
    ];

    let mut analyzer = PacketAnalyzer::new(MACsecParser);

    let report = analyzer.analyze(&packets).unwrap();
    assert_eq!(report.total_packets, 3);
    assert_eq!(report.gaps.len(), 0);
    assert_eq!(report.flow_stats.len(), 1);
}

#[test]
fn test_analyzer_with_gaps() {
    let packets = vec![
        raw(macsec_frame(1, 1), 0),
        raw(macsec_frame(2, 1), 1),
        raw(macsec_frame(4, 1), 2),
    ];

    let mut analyzer = PacketAnalyzer::new(MACsecParser);

    let report = analyzer.analyze(&packets).unwrap();
    assert_eq!(report.total_packets, 3);
    assert_eq!(report.gaps.len(), 1);
    assert_eq!(report.gaps[0].expected, 3);
    assert_eq!(report.gaps[0].received, 4);
}

#[test]
fn analyzer_counts_foreign_packets_and_stops_at_errors() {
    let mut arp = vec![0u8; 60];
    arp[12] = 0x08;
    arp[13] = 0x06;
    let packets = vec![raw(macsec_frame(1, 1), 0), raw(arp, 1), raw(macsec_frame(2, 1), 2)];
    let mut analyzer = PacketAnalyzer::new(MACsecParser);
    let report = analyzer.analyze(&packets).unwrap();
    assert_eq!(report.total_packets, 3);
    assert_eq!(report.protocol, "MACsec");
    assert_eq!(report.flow_stats[0].packets_received, 2);

    let mut short = macsec_frame(9, 1);
    short.truncate(20);
    let packets = vec![raw(macsec_frame(1, 2), 0), raw(short, 1), raw(macsec_frame(2, 2), 2)];
    let mut analyzer = PacketAnalyzer::new(MACsecParser);
    assert!(matches!(
        analyzer.analyze(&packets),
        Err(AnalysisError::Parse(ParseError::PacketTooShort))
    ));
    let empty = AnalysisReport::new("MACsec".to_string());
    assert_eq!(empty.total_packets, 0);
    assert!(empty.gaps.is_empty() && empty.flow_stats.is_empty());
}

#[test]
fn single_packet_goes_through_both_stages() {
    let mut registry = ProtocolRegistry::new();
    let mut tracker = FlowTracker::new();
    let mut gaps = 0;
    for (pn, expect_gap) in [(1u32, false), (2, false), (5, true), (6, false)] {
        let packet = raw(macsec_frame(pn, 0x77), pn as u64);
        let metrics = process_single_packet(&packet, &mut registry, &mut tracker, false).unwrap();
        assert!(metrics.detected);
        assert_eq!(metrics.gap_detected, expect_gap);
        assert_eq!((metrics.detect_us, metrics.track_us, metrics.total_us), (0, 0, 0));
        if metrics.gap_detected {
            gaps += 1;
        }
    }
    assert_eq!(gaps, 1);
    let unknown = raw(vec![0u8; 60], 9);
    let metrics = process_single_packet(&unknown, &mut registry, &mut tracker, true).unwrap();
    assert!(!metrics.detected && !metrics.gap_detected);
    let mut short = macsec_frame(1, 1);
    short.truncate(20);
    assert!(process_single_packet(&raw(short, 10), &mut registry, &mut tracker, false).is_err());
    let stats = tracker.get_stats();
    assert_eq!(stats.len(), 1);
    assert_eq!(stats[0].flow_id, FlowId::MACsec { sci: 0x77 });
    assert_eq!(stats[0].packets_received, 4);
    assert_eq!(stats[0].total_bytes, 4 * 16);
}

#[test]
fn tcp_flow_is_counted_without_gaps() {
    let mut registry = ProtocolRegistry::new();
    let mut tracker = FlowTracker::new();
    let mut total = 0u64;
    for (seq, payload) in [(1000u32, 1460usize), (2460, 1460), (3920, 512)] {
        let mut frame = vec![0u8; 54 + payload];
        frame[12] = 0x08;
        frame[14] = 0x45;
        frame[23] = 6;
        frame[26..30].copy_from_slice(&[192, 168, 1, 10]);
        frame[30..34].copy_from_slice(&[10, 0, 0, 1]);
        frame[34..36].copy_from_slice(&12345u16.to_be_bytes());
        frame[36..38].copy_from_slice(&80u16.to_be_bytes());
        frame[38..42].copy_from_slice(&seq.to_be_bytes());
        frame[46] = 0x50;
        let metrics =
            process_single_packet(&raw(frame, seq as u64), &mut registry, &mut tracker, false)
                .unwrap();
        assert!(metrics.detected);
        assert!(!metrics.gap_detected);
        total += payload as u64;
    }
    let stats = tracker.get_stats();
    assert_eq!(stats.len(), 1);
    assert_eq!(stats[0].packets_received, 3);
    assert_eq!(stats[0].gaps_detected, 0);
    assert_eq!(stats[0].total_bytes, total);
    assert_eq!(stats[0].flow_id.to_string(), "TCP { 192.168.1.10:12345 \u{2192} 10.0.0.1:80 }");
    assert_eq!(registry.get_stats().cache_misses, 1);
    assert_eq!(registry.get_stats().cache_hits, 2);
}

#[test]
fn loop_decisions() {
    assert!(should_persist(30_000_000_001, 7));
    assert!(!should_persist(30_000_000_000, 7));
    assert!(should_persist(0, 100_000));
    assert!(should_persist(0, 0));
    assert!(!should_persist(1, 99_999));
    assert!(should_persist_with(5_000_000_001, 3, 5, 10_000));
    assert!(!should_persist_with(5_000_000_000, 3, 5, 10_000));
    assert!(should_persist_with(0, 20_000, 5, 10_000));
    assert_eq!(loop_action(&Ok(Some(raw(vec![], 0)))), LoopAction::Process);
    assert_eq!(loop_action(&Ok(None)), LoopAction::Continue);
    assert_eq!(loop_action(&Err(CaptureError::NoMorePackets)), LoopAction::Finish);
    assert_eq!(
        loop_action(&Err(CaptureError::ReadFailed("gone".to_string()))),
        LoopAction::Abort
    );
}

#[test]
fn counters_and_timing() {
    let mut counters = LoopCounters::new();
    let hit = ProcessMetrics { detected: true, gap_detected: true, detect_us: 3, track_us: 4, total_us: 9 };
    let miss = ProcessMetrics { detected: false, gap_detected: true, detect_us: 1, track_us: 0, total_us: 2 };
    counters.account(&hit);
    counters.account(&miss);
    assert_eq!(counters.packet_count, 2);
    assert_eq!(counters.gap_count, 1);
    let mut timing = TimingStats::new();
    timing.record(&hit);
    timing.record(&miss);
    assert_eq!(timing.totals(), (4, 4, 11, 2));
    let timer = ExecutionTimer::start("load", 1_000);
    assert_eq!(timer.phase_name, "load");
    assert_eq!(timer.elapsed(4_500), 3_500);
    assert_eq!(timer.elapsed(10), 0);
}

#[test]
fn capture_error_texts() {
    assert_eq!(
        CaptureError::OpenFailed("x".to_string()).to_string(),
        "Failed to open capture: x"
    );
    assert_eq!(CaptureError::ReadFailed("x".to_string()).to_string(), "Failed to read packet: x");
    assert_eq!(CaptureError::NoMorePackets.to_string(), "No more packets");
    assert_eq!(
        CaptureError::UnsupportedOperation("x".to_string()).to_string(),
        "Unsupported operation: x"
    );
    assert_eq!(CaptureError::XdpNotAvailable("x".to_string()).to_string(), "XDP not available: x");
    assert_eq!(CaptureError::AfPacketError("x".to_string()).to_string(), "AF_PACKET error: x");
    assert_eq!(CaptureError::DatabaseError("x".to_string()).to_string(), "Database error: x");
    assert!(CaptureError::NoMorePackets.is_end_of_stream());
    assert!(!CaptureError::ReadFailed("x".to_string()).is_end_of_stream());
    assert_eq!(
        AnalysisError::from(CaptureError::NoMorePackets).to_string(),
        "Capture error: No more packets"
    );
    assert_eq!(
        AnalysisError::from(ParseError::PacketTooShort).to_string(),
        "Parse error: Packet too short for protocol"
    );
    match filter_unsupported() {
        Err(CaptureError::UnsupportedOperation(msg)) => {
            assert_eq!(msg, "BPF filtering not supported by this source")
        }
        _ => panic!("Expected UnsupportedOperation"),
    }
}

#[test]
fn unavailable_and_planned_captures() {
    match XdpCapture::open("eth0") {
        Err(CaptureError::XdpNotAvailable(msg)) => assert_eq!(
            msg,
            "XDP support requires kernel 4.18+, libbpf, and XDP-capable NIC driver"
        ),
        _ => panic!("Expected XdpNotAvailable"),
    }
    assert!(AfPacketCapture::open("eth0", 64).is_ok());
    match AfPacketCapture::open("a-very-long-interface-name", 64) {
        Err(CaptureError::AfPacketError(msg)) => assert_eq!(msg, "Interface name too long"),
        _ => panic!("Expected AfPacketError"),
    }
    assert!(AfPacketCapture::open("eth0", 0).is_err());
    assert!(AfPacketCapture::open("eth0", 4096).is_err());
    let mut ring = AfPacketCapture::open("eth0", 2).unwrap();
    assert_eq!(ring.block_offset(), 0);
    ring.advance();
    assert_eq!(ring.block_offset(), 1024 * 1024);
    ring.advance();
    assert_eq!(ring.block_offset(), 0);
}

#[test]
fn napatech_decisions() {
    assert!(NtStatus::Success.is_success());
    assert!(!NtStatus::Done.is_success());
    assert!(NtStatus::Done.is_done());
    assert!(!NtStatus::MoreData.is_done());
    for status in [NtStatus::Success, NtStatus::Fail, NtStatus::MoreData, NtStatus::Done, NtStatus::ParamError] {
        assert_eq!(NtStatus::from_code(status.code()), Some(status));
    }
    assert_eq!(NtStatus::Fail.code(), -1);
    assert_eq!(NtStatus::ParamError.code(), -2);
    assert_eq!(NtStatus::from_code(3), None);

    match NapatechCapture::open(256, 0, 1) {
        Err(CaptureError::OpenFailed(msg)) => assert_eq!(msg, "Invalid Napatech port ID: 256"),
        _ => panic!("Expected OpenFailed"),
    }
    match NapatechCapture::open(0, 64, 1) {
        Err(CaptureError::OpenFailed(msg)) => {
            assert_eq!(msg, "Invalid Napatech stream ID: 64 (must be 0-63)")
        }
        _ => panic!("Expected OpenFailed"),
    }
    match NapatechCapture::open(3, 4, -5) {
        Err(CaptureError::OpenFailed(msg)) => {
            assert_eq!(msg, "NT_NetRxOpen failed for port 3 stream 4 with status -5")
        }
        _ => panic!("Expected OpenFailed"),
    }
    match NapatechCapture::check_init(-1) {
        Err(CaptureError::OpenFailed(msg)) => assert_eq!(msg, "NT_Init failed with status -1"),
        _ => panic!("Expected OpenFailed"),
    }
    assert!(NapatechCapture::check_init(0).is_ok());
    assert!(NapatechCapture::check_ids(255, 63).is_ok());

    let mut capture = NapatechCapture::open(3, 4, 17).unwrap();
    assert_eq!(capture.port_id(), 3);
    assert_eq!(capture.stream_id(), 4);
    assert_eq!(capture.handle(), 17);
    assert_eq!(capture.packets_read(), 0);
    assert!(matches!(capture.classify_read(0), Ok(ReadOutcome::Packet)));
    assert!(matches!(capture.classify_read(1), Ok(ReadOutcome::NoPacket)));
    assert!(matches!(capture.classify_read(2), Ok(ReadOutcome::NoPacket)));
    match capture.classify_read(-2147483648) {
        Err(CaptureError::ReadFailed(msg)) => {
            assert_eq!(msg, "NT_NetRxRead failed with status -2147483648")
        }
        _ => panic!("Expected ReadFailed"),
    }
    assert!(capture.check_attribute_status(0).is_ok());
    match capture.check_attribute_status(7) {
        Err(CaptureError::OpenFailed(msg)) => {
            assert_eq!(msg, "NT_NetRxSetAttribute failed with status 7")
        }
        _ => panic!("Expected OpenFailed"),
    }
    capture.count_packet();
    assert_eq!(capture.packets_read(), 1);
    assert_eq!(NapatechCapture::captured_length(100), 100);
    assert_eq!(NapatechCapture::captured_length(70_000), 65535);
    let driver = NtNetRxStat { rx_packets: 10, rx_bytes: 1000, rx_errors: 0, rx_drops: 2 };
    let stats = capture.stats(0, &driver);
    assert_eq!((stats.packets_received, stats.packets_dropped), (10, 2));
    let stats = capture.stats(-1, &driver);
    assert_eq!((stats.packets_received, stats.packets_dropped), (1, 0));

    let config = NapatechConfig::new()
        .with_port(2)
        .with_stream(5)
        .with_crc(true)
        .with_capture_mode(NapatechCaptureMode::KeyFilter { l3_protocol: Some(4), l4_protocol: None });
    assert_eq!(config.port_id, 2);
    assert_eq!(config.stream_id, 5);
    assert!(config.capture_crc);
    assert_eq!(
        config.capture_mode,
        NapatechCaptureMode::KeyFilter { l3_protocol: Some(4), l4_protocol: None }
    );
    let fresh = NapatechConfig::default();
    assert_eq!((fresh.port_id, fresh.stream_id, fresh.capture_crc), (0, 0, false));
    assert_eq!(fresh.capture_mode, NapatechCaptureMode::AllPackets);
}

#[test]
fn parsers_by_name() {
    assert_eq!(ParserKind::from_name("macsec"), Some(ParserKind::MACsec));
    assert_eq!(ParserKind::from_name("ipsec"), Some(ParserKind::IPsec));
    assert_eq!(ParserKind::from_name("generic"), Some(ParserKind::GenericL3));
    assert_eq!(ParserKind::from_name("MACsec"), None);
    assert_eq!(ParserKind::from_name("macsec "), None);
    assert_eq!(ParserKind::from_name(""), None);
    assert!(same_text("", ""));
    assert!(same_text("a\u{2192}b", "a\u{2192}b"));
    assert!(!same_text("ab", "abc"));
    assert!(!same_text("abc", "ab"));
    let frame = macsec_frame(3, 4);
    let info = parse_with(ParserKind::MACsec, &frame).unwrap().unwrap();
    assert_eq!(info.sequence_number, 3);
    assert!(parse_with(ParserKind::IPsec, &frame).unwrap().is_none());
    assert!(parse_with(ParserKind::GenericL3, &frame).unwrap().is_none());
    assert_eq!(Timestamp::from_secs_micros(2, 5), Timestamp::from_nanos(2_000_005_000));
}
