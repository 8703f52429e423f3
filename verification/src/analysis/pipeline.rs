//! One packet's way through detection and tracking, and the decisions of
//! the loop that drives it.

use crate::analysis::flow::{state_for, track, wall_clock_now, FlowTracker};
use crate::error::{CaptureError, ParseError};
use crate::protocol::registry::ProtocolRegistry;
use crate::types::{AnalyzedPacket, ProcessMetrics, RawPacket, SequenceInfo, Timestamp};
use vstd::prelude::*;

verus! {

/// Seconds after which a snapshot is persisted.
pub const PERSIST_INTERVAL_SECS: u64 = 30;

/// Number of packets after which a snapshot is persisted.
pub const PERSIST_PACKET_THRESHOLD: u64 = 100_000;

/// The tracker's input for a frame that was parsed to `info` and
/// captured at `timestamp`.
pub open spec fn spec_analyzed(info: SequenceInfo, timestamp: Timestamp) -> AnalyzedPacket {
    AnalyzedPacket {
        sequence_number: info.sequence_number,
        flow_id: info.flow_id,
        timestamp,
        payload_length: info.payload_length,
    }
}

/// The tracker's input for a parsed frame.
pub fn analyzed(info: &SequenceInfo, timestamp: Timestamp) -> (p: AnalyzedPacket)
    ensures
        p == spec_analyzed(*info, timestamp),
{
    AnalyzedPacket {
        sequence_number: info.sequence_number,
        flow_id: info.flow_id,
        timestamp,
        payload_length: info.payload_length,
    }
}

/// Microseconds from `from` to `to`, zero if the clock went back.
fn micros_between(from: Timestamp, to: Timestamp) -> (us: u128)
    ensures
        us == if to.nanos >= from.nanos {
            (to.nanos - from.nanos) / 1_000
        } else {
            0
        },
{
    if to.nanos >= from.nanos {
        (to.nanos - from.nanos) / 1_000
    } else {
        0
    }
}

/// Whether the tracker's counters have room for what detection makes of
/// the frame `raw`.
pub open spec fn room_for_frame(
    registry: &ProtocolRegistry,
    tracker: &FlowTracker,
    raw: &RawPacket,
) -> bool {
    match registry@.detect(raw.data@).1 {
        Ok(Some(info)) => tracker.can_accept(spec_analyzed(info, raw.timestamp)),
        _ => true,
    }
}

/// Sends one frame through detection and tracking.
///
/// A parse error is returned and leaves the tracker untouched. Without
/// `debug` the timing fields of the result are zero; with it they hold
/// what the wall clock showed.
pub fn process_single_packet(
    raw_packet: &RawPacket,
    registry: &mut ProtocolRegistry,
    flow_tracker: &mut FlowTracker,
    debug: bool,
) -> (r: Result<ProcessMetrics, ParseError>)
    requires
        old(registry)@.inv(),
        old(flow_tracker).wf(),
        room_for_frame(old(registry), old(flow_tracker), raw_packet),
    ensures
        final(registry)@ == old(registry)@.detect(raw_packet.data@).0,
        final(registry)@.inv(),
        final(flow_tracker).wf(),
        final(flow_tracker).window() == old(flow_tracker).window(),
        match old(registry)@.detect(raw_packet.data@).1 {
            Ok(Some(info)) => {
                let packet = spec_analyzed(info, raw_packet.timestamp);
                let before = state_for(old(flow_tracker)@, info.flow_id, old(flow_tracker).window());
                &&& r is Ok
                &&& r.unwrap().detected
                &&& r.unwrap().gap_detected == before.is_forward_jump(packet)
                &&& exists|now: Timestamp|
                    final(flow_tracker)@ == #[trigger] track(
                        old(flow_tracker)@,
                        packet,
                        now,
                        old(flow_tracker).window(),
                    )
            },
            Ok(None) => {
                &&& r is Ok
                &&& !r.unwrap().detected
                &&& !r.unwrap().gap_detected
                &&& final(flow_tracker)@ == old(flow_tracker)@
            },
            Err(e) => r == Err::<ProcessMetrics, ParseError>(e) && final(flow_tracker)@ == old(
                flow_tracker,
            )@,
        },
        !debug && r is Ok ==> r.unwrap().detect_us == 0 && r.unwrap().track_us == 0
            && r.unwrap().total_us == 0,
{
    let total_start = if debug {
        Some(wall_clock_now())
    } else {
        None
    };
    let seq_info = match registry.detect_and_parse(raw_packet.data.as_slice()) {
        Ok(info) => info,
        Err(e) => {
            return Err(e);
        },
    };
    let detect_us = match total_start {
        Some(start) => micros_between(start, wall_clock_now()),
        None => 0,
    };
    let mut metrics = ProcessMetrics {
        detected: seq_info.is_some(),
        gap_detected: false,
        detect_us,
        track_us: 0,
        total_us: 0,
    };
    if let Some(info) = seq_info {
        let packet = analyzed(&info, raw_packet.timestamp);
        let track_start = if debug {
            Some(wall_clock_now())
        } else {
            None
        };
        metrics.gap_detected = flow_tracker.process_packet(packet).is_some();
        metrics.track_us = match track_start {
            Some(start) => micros_between(start, wall_clock_now()),
            None => 0,
        };
    }
    if let Some(start) = total_start {
        metrics.total_us = micros_between(start, wall_clock_now());
    }
    Ok(metrics)
}

/// Whether a snapshot is due under the given schedule: more than
/// `interval_secs` seconds have passed since the last one, or the packet
/// count is a multiple of `threshold`.
pub fn should_persist_with(
    since_last_nanos: u128,
    packet_count: u64,
    interval_secs: u64,
    threshold: u64,
) -> (due: bool)
    requires
        threshold > 0,
    ensures
        due == (since_last_nanos > interval_secs * 1_000_000_000 || packet_count % threshold == 0),
{
    since_last_nanos > interval_secs as u128 * 1_000_000_000 || packet_count % threshold == 0
}

/// Whether a snapshot is due: more than thirty seconds have passed since
/// the last one, or the packet count is a multiple of 100 000.
pub open spec fn spec_should_persist(since_last_nanos: u128, packet_count: u64) -> bool {
    since_last_nanos > 30 * 1_000_000_000 || packet_count % 100_000 == 0
}

/// Whether a snapshot is due.
pub fn should_persist(since_last_nanos: u128, packet_count: u64) -> (due: bool)
    ensures
        due == spec_should_persist(since_last_nanos, packet_count),
{
    should_persist_with(
        since_last_nanos,
        packet_count,
        PERSIST_INTERVAL_SECS,
        PERSIST_PACKET_THRESHOLD,
    )
}

/// What the loop does with an answer of the capture source.
#[derive(Debug, Clone, Copy, PartialEq, Eq, Structural)]
pub enum LoopAction {
    /// A packet came: process it.
    Process,
    /// A benign boundary, such as the start of a new replay loop: go on.
    Continue,
    /// The stream ended: stop without complaint.
    Finish,
    /// The source failed: report the error and stop.
    Abort,
}

/// What the loop does with an answer of the capture source.
pub open spec fn spec_loop_action(answer: Result<Option<RawPacket>, CaptureError>) -> LoopAction {
    match answer {
        Ok(Some(_)) => LoopAction::Process,
        Ok(None) => LoopAction::Continue,
        Err(CaptureError::NoMorePackets) => LoopAction::Finish,
        Err(_) => LoopAction::Abort,
    }
}

/// What the loop does with an answer of the capture source.
pub fn loop_action(answer: &Result<Option<RawPacket>, CaptureError>) -> (action: LoopAction)
    ensures
        action == spec_loop_action(*answer),
{
    match answer {
        Ok(Some(_)) => LoopAction::Process,
        Ok(None) => LoopAction::Continue,
        Err(CaptureError::NoMorePackets) => LoopAction::Finish,
        Err(_) => LoopAction::Abort,
    }
}

/// The loop's own counters.
#[derive(Debug, Clone, Copy, PartialEq, Eq, Structural)]
pub struct LoopCounters {
    pub packet_count: u64,
    pub gap_count: u64,
}

impl LoopCounters {
    /// Counters at zero.
    pub fn new() -> (c: LoopCounters)
        ensures
            c.packet_count == 0,
            c.gap_count == 0,
    {
        LoopCounters { packet_count: 0, gap_count: 0 }
    }

    /// Counts a packet, and a gap if the packet was detected and opened
    /// one.
    pub fn account(&mut self, metrics: &ProcessMetrics)
        requires
            old(self).packet_count < u64::MAX,
            old(self).gap_count <= old(self).packet_count,
        ensures
            final(self).packet_count == old(self).packet_count + 1,
            final(self).gap_count == old(self).gap_count + (if metrics.detected
                && metrics.gap_detected {
                1int
            } else {
                0int
            }),
            final(self).gap_count <= final(self).packet_count,
    {
        self.packet_count = self.packet_count + 1;
        if metrics.detected && metrics.gap_detected {
            self.gap_count = self.gap_count + 1;
        }
    }
}

/// Sums of the per-packet timings.
#[derive(Debug, Clone, Copy, PartialEq, Eq, Structural)]
pub struct TimingStats {
    pub total_detect_us: u128,
    pub total_track_us: u128,
    pub total_process_us: u128,
    pub packet_count: u64,
}

impl TimingStats {
    /// Sums at zero.
    pub fn new() -> (s: TimingStats)
        ensures
            s == (TimingStats {
                total_detect_us: 0,
                total_track_us: 0,
                total_process_us: 0,
                packet_count: 0,
            }),
    {
        TimingStats { total_detect_us: 0, total_track_us: 0, total_process_us: 0, packet_count: 0 }
    }

    /// Whether the sums have room for `metrics`.
    pub open spec fn has_room(self, metrics: ProcessMetrics) -> bool {
        &&& self.total_detect_us + metrics.detect_us <= u128::MAX
        &&& self.total_track_us + metrics.track_us <= u128::MAX
        &&& self.total_process_us + metrics.total_us <= u128::MAX
        &&& self.packet_count < u64::MAX
    }

    /// Adds the timings of one packet.
    pub fn record(&mut self, metrics: &ProcessMetrics)
        requires
            old(self).has_room(*metrics),
        ensures
            *final(self) == (TimingStats {
                total_detect_us: (old(self).total_detect_us + metrics.detect_us) as u128,
                total_track_us: (old(self).total_track_us + metrics.track_us) as u128,
                total_process_us: (old(self).total_process_us + metrics.total_us) as u128,
                packet_count: (old(self).packet_count + 1) as u64,
            }),
    {
        self.total_detect_us = self.total_detect_us + metrics.detect_us;
        self.total_track_us = self.total_track_us + metrics.track_us;
        self.total_process_us = self.total_process_us + metrics.total_us;
        self.packet_count = self.packet_count + 1;
    }

    /// The sums of detection, tracking and total time, and the number of
    /// packets that they were taken over.
    pub fn totals(&self) -> (t: (u128, u128, u128, u64))
        ensures
            t == (
                self.total_detect_us,
                self.total_track_us,
                self.total_process_us,
                self.packet_count,
            ),
    {
        (self.total_detect_us, self.total_track_us, self.total_process_us, self.packet_count)
    }
}

/// A stopwatch for one phase of a run; the caller reads the clock.
#[derive(Debug)]
pub struct ExecutionTimer {
    pub phase_name: &'static str,
    pub start_nanos: u64,
}

impl ExecutionTimer {
    /// Starts the stopwatch of `phase` at the clock reading `now_nanos`.
    pub fn start(phase: &'static str, now_nanos: u64) -> (t: ExecutionTimer)
        ensures
            t.phase_name == phase,
            t.start_nanos == now_nanos,
    {
        ExecutionTimer { phase_name: phase, start_nanos: now_nanos }
    }

    /// Nanoseconds from the start to the clock reading `now_nanos`; zero
    /// if the clock shows less than at the start.
    pub fn elapsed(&self, now_nanos: u64) -> (nanos: u64)
        ensures
            nanos == if now_nanos >= self.start_nanos {
                now_nanos - self.start_nanos
            } else {
                0
            },
    {
        if now_nanos >= self.start_nanos {
            now_nanos - self.start_nanos
        } else {
            0
        }
    }
}

} // verus!
