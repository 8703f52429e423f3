use macsec_packet_analyzer::capture::replay::{
    fixed_rate_interval, residual_wait, ReplayDelay, ReplayStep,
};
use macsec_packet_analyzer::analysis::flow::FlowTracker;
use macsec_packet_analyzer::capture::{ReplayCapture, ReplayMode};
use macsec_packet_analyzer::error::CaptureError;
use macsec_packet_analyzer::protocol::ProtocolRegistry;
use macsec_packet_analyzer::types::{AnalyzedPacket, Interval, RawPacket, Timestamp};

fn packet(micros: u64, fill: u8) -> RawPacket {
    RawPacket { data: vec![fill; 60], timestamp: Timestamp::from_micros(micros), length: 64 }
}

fn three_packets() -> Vec<RawPacket> {
    vec![packet(1_000_000, 1), packet(1_001_000, 2), packet(1_003_000, 3)]
}

#[test]
fn test_invalid_fixed_rate_zero() {
    let result = ReplayCapture::open("dummy.pcap", Vec::new(), ReplayMode::FixedRate(0), false);
    assert!(result.is_err());
    match result {
        Err(CaptureError::OpenFailed(msg)) => assert!(msg.contains("must be > 0")),
        _ => panic!("Expected OpenFailed error"),
    }
}

#[test]
fn test_invalid_speed_multiplier_zero() {
    let result = ReplayCapture::open(
        "dummy.pcap",
        Vec::new(),
        ReplayMode::SpeedMultiplier(0.0f64.to_bits()),
        false,
    );
    assert!(result.is_err());
}

#[test]
fn test_invalid_speed_multiplier_negative() {
    let result = ReplayCapture::open(
        "dummy.pcap",
        Vec::new(),
        ReplayMode::SpeedMultiplier((-1.0f64).to_bits()),
        false,
    );
    assert!(result.is_err());
}

#[test]
fn test_valid_modes() {
    assert_eq!(ReplayMode::Fast.to_string(), "fast");
    assert_eq!(ReplayMode::OriginalTiming.to_string(), "original");
    assert!(ReplayMode::FixedRate(1000).to_string().contains("fixed"));
    assert!(ReplayMode::SpeedMultiplier(2.0f64.to_bits()).to_string().contains("speed"));
}

#[test]
fn mode_validity_follows_the_float() {
    for value in [0.5f64, 2.0, 1e-310, f64::MAX, f64::INFINITY, f64::MIN_POSITIVE] {
        assert!(ReplayMode::SpeedMultiplier(value.to_bits()).is_valid(), "{}", value);
        assert!(value > 0.0);
    }
    for value in [0.0f64, -0.0, -1.0, f64::NAN, -f64::NAN, f64::NEG_INFINITY, -1e-310] {
        assert!(!ReplayMode::SpeedMultiplier(value.to_bits()).is_valid(), "{}", value);
        assert!(!(value > 0.0));
    }
    assert!(ReplayMode::FixedRate(1).is_valid());
    assert!(!ReplayMode::FixedRate(0).is_valid());
    assert!(ReplayMode::Fast.is_valid());
    assert_eq!(ReplayMode::FixedRate(1000).to_string(), "fixed (1000 pps)");
}

#[test]
fn open_reports_each_failure() {
    match ReplayCapture::open("a.pcap", three_packets(), ReplayMode::SpeedMultiplier(0), true) {
        Err(CaptureError::OpenFailed(msg)) => {
            assert_eq!(msg, "SpeedMultiplier: multiplier must be > 0.0")
        }
        _ => panic!("Expected OpenFailed error"),
    }
    match ReplayCapture::open("a.pcap", three_packets(), ReplayMode::FixedRate(0), true) {
        Err(CaptureError::OpenFailed(msg)) => {
            assert_eq!(msg, "FixedRate: packets per second must be > 0")
        }
        _ => panic!("Expected OpenFailed error"),
    }
    match ReplayCapture::open("empty.pcap", Vec::new(), ReplayMode::Fast, false) {
        Err(CaptureError::OpenFailed(msg)) => {
            assert_eq!(msg, "PCAP file empty.pcap contains no packets")
        }
        _ => panic!("Expected OpenFailed error"),
    }
}

#[test]
fn replay_without_looping_ends() {
    let mut replay =
        ReplayCapture::open("t.pcap", three_packets(), ReplayMode::Fast, false).unwrap();
    assert_eq!(replay.next_step(), ReplayStep::Packet { index: 0, restart_clock: true });
    assert_eq!(replay.next_step(), ReplayStep::Packet { index: 1, restart_clock: false });
    assert_eq!(replay.next_step(), ReplayStep::Packet { index: 2, restart_clock: false });
    assert_eq!(replay.next_step(), ReplayStep::Finished);
    assert_eq!(replay.next_step(), ReplayStep::Finished);
    let stats = replay.replay_stats();
    assert_eq!(stats.packets_replayed, 3);
    assert_eq!(stats.loops_completed, 0);
    assert_eq!(stats.current_loop, 0);
    assert_eq!(stats.total_packets, 3);
    assert_eq!(replay.stats().packets_received, 3);
    assert_eq!(replay.stats().packets_dropped, 0);
    assert!(replay.can_advance());
}

#[test]
fn replay_with_looping_marks_each_boundary_once() {
    let mut replay =
        ReplayCapture::open("t.pcap", three_packets(), ReplayMode::Fast, true).unwrap();
    let mut steps = Vec::new();
    for _ in 0..9 {
        steps.push(replay.next_step());
    }
    assert_eq!(
        steps,
        vec![
            ReplayStep::Packet { index: 0, restart_clock: true },
            ReplayStep::Packet { index: 1, restart_clock: false },
            ReplayStep::Packet { index: 2, restart_clock: false },
            ReplayStep::LoopBoundary,
            ReplayStep::Packet { index: 0, restart_clock: true },
            ReplayStep::Packet { index: 1, restart_clock: false },
            ReplayStep::Packet { index: 2, restart_clock: false },
            ReplayStep::LoopBoundary,
            ReplayStep::Packet { index: 0, restart_clock: true },
        ]
    );
    let stats = replay.replay_stats();
    assert_eq!(stats.packets_replayed, 7);
    assert_eq!(stats.loops_completed, 2);
}

#[test]
fn delays_by_mode() {
    let fast = ReplayCapture::open("t.pcap", three_packets(), ReplayMode::Fast, false).unwrap();
    assert!(matches!(fast.delay_for(2), Ok(ReplayDelay::Immediate)));

    let fixed =
        ReplayCapture::open("t.pcap", three_packets(), ReplayMode::FixedRate(1000), false).unwrap();
    for index in 0..3 {
        assert!(matches!(fixed.delay_for(index), Ok(ReplayDelay::Interval { nanos: 1_000_000 })));
    }

    let original =
        ReplayCapture::open("t.pcap", three_packets(), ReplayMode::OriginalTiming, false).unwrap();
    assert!(matches!(original.delay_for(0), Ok(ReplayDelay::UntilOffset { nanos: 0 })));
    assert!(matches!(original.delay_for(1), Ok(ReplayDelay::UntilOffset { nanos: 1_000_000 })));
    assert!(matches!(original.delay_for(2), Ok(ReplayDelay::UntilOffset { nanos: 3_000_000 })));

    let bits = 2.0f64.to_bits();
    let speed =
        ReplayCapture::open("t.pcap", three_packets(), ReplayMode::SpeedMultiplier(bits), false)
            .unwrap();
    match speed.delay_for(2) {
        Ok(ReplayDelay::UntilScaledOffset { nanos, multiplier_bits }) => {
            assert_eq!(nanos, 3_000_000);
            assert_eq!(f64::from_bits(multiplier_bits), 2.0);
        }
        _ => panic!("Expected a scaled offset"),
    }
}

#[test]
fn packet_before_the_first_cannot_be_timed() {
    let packets = vec![packet(2_000, 1), packet(1_000, 2)];
    let replay = ReplayCapture::open("t.pcap", packets, ReplayMode::OriginalTiming, false).unwrap();
    match replay.delay_for(1) {
        Err(CaptureError::ReadFailed(msg)) => assert_eq!(
            msg,
            "Time calculation error: second time provided was later than self"
        ),
        _ => panic!("Expected ReadFailed error"),
    }
}

#[test]
fn waits_and_intervals() {
    assert_eq!(residual_wait(3_000_000, 1_000_000), Some(2_000_000));
    assert_eq!(residual_wait(1_000_000, 1_000_000), Some(0));
    assert_eq!(residual_wait(1_000_000, 1_000_001), None);
    assert_eq!(fixed_rate_interval(1000), 1_000_000);
    assert_eq!(fixed_rate_interval(1), 1_000_000_000);
    assert_eq!(fixed_rate_interval(3), 333_333_333);
    assert_eq!(fixed_rate_interval(u64::MAX), 0);
}

#[test]
fn packets_are_restamped() {
    let replay = ReplayCapture::open("t.pcap", three_packets(), ReplayMode::Fast, false).unwrap();
    let handed = replay.packet_at(1, Timestamp::from_secs(99));
    assert_eq!(handed.data, vec![2u8; 60]);
    assert_eq!(handed.length, 64);
    assert_eq!(handed.timestamp, Timestamp::from_secs(99));
}

#[test]
fn io_timing_keeps_total_min_and_max() {
    let mut replay =
        ReplayCapture::open("t.pcap", three_packets(), ReplayMode::Fast, false).unwrap();
    assert_eq!(replay.get_io_stats(), (0, 0, u128::MAX, 0));
    replay.record_io_time(7);
    replay.record_io_time(3);
    replay.record_io_time(12);
    assert_eq!(replay.get_io_stats(), (22, 3, 3, 12));
}

#[test]
fn fixed_rate_replay_spaces_arrivals_evenly() {
    // three MACsec frames captured at t, t + 1 ms and t + 3 ms
    let mut packets = Vec::new();
    for (pn, micros) in [(1u8, 5_000_000u64), (2, 5_001_000), (3, 5_003_000)] {
        let mut data = vec![0u8; 60];
        data[12] = 0x88;
        data[13] = 0xE5;
        data[19] = pn;
        data[27] = 9;
        packets.push(RawPacket { data, timestamp: Timestamp::from_micros(micros), length: 60 });
    }
    let mut replay =
        ReplayCapture::open("t.pcap", packets, ReplayMode::FixedRate(1000), false).unwrap();
    let mut registry = ProtocolRegistry::new();
    let mut tracker = FlowTracker::new();
    // a clock that advances by exactly the delay the replay asks for
    let mut clock: u128 = 1_000_000_000_000;
    loop {
        match replay.next_step() {
            ReplayStep::Packet { index, .. } => {
                match replay.delay_for(index).unwrap() {
                    ReplayDelay::Interval { nanos } => clock += nanos as u128,
                    _ => panic!("Expected an interval"),
                }
                let handed = replay.packet_at(index, Timestamp::from_nanos(clock));
                let info = registry.detect_and_parse(&handed.data).unwrap().unwrap();
                let packet = AnalyzedPacket {
                    sequence_number: info.sequence_number,
                    flow_id: info.flow_id,
                    timestamp: handed.timestamp,
                    payload_length: info.payload_length,
                };
                assert!(tracker.process_packet(packet).is_none());
            }
            ReplayStep::Finished => break,
            ReplayStep::LoopBoundary => panic!("Looping is off"),
        }
    }
    let stats = tracker.get_stats();
    assert_eq!(stats.len(), 1);
    assert_eq!(stats[0].packets_received, 3);
    assert_eq!(stats[0].min_inter_arrival, Some(Interval::from_millis(1)));
    assert_eq!(stats[0].max_inter_arrival, Some(Interval::from_millis(1)));
    assert_eq!(stats[0].avg_inter_arrival, Some(Interval::from_millis(1)));
}
