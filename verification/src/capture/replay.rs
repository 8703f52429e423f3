//! Replay of a capture that was loaded into memory, with four timing
//! modes and optional looping.
//!
//! Sleeping and reading the clock are left to the caller. `ReplayCapture`
//! decides what comes next (`next_step`), how long the caller is to wait
//! before it hands a packet on (`delay_for`, `residual_wait`), and keeps
//! the counters.

use crate::error::CaptureError;
use crate::types::{CaptureStats, RawPacket, Timestamp};
use crate::text::{decimal_text, push_decimal};
use vstd::prelude::*;
use vstd::string::StringExecFns;

verus! {

/// Largest bit pattern of a double that is a number: positive infinity.
pub const F64_INFINITY_BITS: u64 = 0x7FF0_0000_0000_0000;

/// Nanoseconds in a second.
pub const NANOS_PER_SECOND: u64 = 1_000_000_000;

/// How a replay times its packets.
#[derive(Debug, Clone, Copy, PartialEq, Eq, Structural)]
pub enum ReplayMode {
    /// No delay.
    Fast,
    /// Each packet at its original offset from the first.
    OriginalTiming,
    /// A fixed number of packets per second.
    FixedRate(u64),
    /// Original offsets divided by a factor. The factor is a double,
    /// held as its IEEE-754 bit pattern (`f64::to_bits`).
    SpeedMultiplier(u64),
}

/// Whether `bits` is the pattern of a double greater than zero: the sign
/// bit is clear, and the value is neither zero nor a NaN.
pub open spec fn spec_is_positive_f64(bits: u64) -> bool {
    0 < bits <= 0x7FF0_0000_0000_0000
}

impl ReplayMode {
    /// Whether the mode's parameter is usable: a rate above zero, a
    /// factor above zero.
    pub open spec fn spec_is_valid(self) -> bool {
        match self {
            ReplayMode::FixedRate(pps) => pps > 0,
            ReplayMode::SpeedMultiplier(bits) => spec_is_positive_f64(bits),
            _ => true,
        }
    }

    pub fn is_valid(&self) -> (b: bool)
        ensures
            b == self.spec_is_valid(),
    {
        match self {
            ReplayMode::FixedRate(pps) => *pps > 0,
            ReplayMode::SpeedMultiplier(bits) => 0 < *bits && *bits <= F64_INFINITY_BITS,
            _ => true,
        }
    }

    /// The mode's name, with the rate for `FixedRate`.
    pub open spec fn spec_text(self) -> Seq<char> {
        match self {
            ReplayMode::Fast => "fast"@,
            ReplayMode::OriginalTiming => "original"@,
            ReplayMode::FixedRate(pps) => "fixed ("@ + decimal_text(pps as nat) + " pps)"@,
            ReplayMode::SpeedMultiplier(_) => "speed"@,
        }
    }

    /// The mode's name, with the rate for `FixedRate`. The factor of
    /// `SpeedMultiplier` is a double and is left to the caller to print.
    pub fn to_string(&self) -> (text: String)
        ensures
            text@ == self.spec_text(),
    {
        match self {
            ReplayMode::Fast => String::from_str("fast"),
            ReplayMode::OriginalTiming => String::from_str("original"),
            ReplayMode::FixedRate(pps) => {
                let mut out = String::from_str("fixed (");
                push_decimal(&mut out, *pps);
                out.append(" pps)");
                out
            },
            ReplayMode::SpeedMultiplier(_) => String::from_str("speed"),
        }
    }
}

/// Progress of a replay.
#[derive(Debug, Clone)]
pub struct ReplayStats {
    pub packets_replayed: u64,
    pub loops_completed: u64,
    pub current_loop: u64,
    pub total_packets: u64,
}

/// What a replay does next.
#[derive(Debug, Clone, Copy, PartialEq, Eq, Structural)]
pub enum ReplayStep {
    /// Hand on the packet at `index`; if `restart_clock` is set, the
    /// replay's clock starts anew before the delay is taken.
    Packet { index: usize, restart_clock: bool },
    /// The end of the capture was reached and a new loop begins with the
    /// next step: report a boundary, not the end.
    LoopBoundary,
    /// The capture is used up.
    Finished,
}

/// How long the caller waits before it hands a packet on.
#[allow(inconsistent_fields)]
#[derive(Debug, Clone, Copy, PartialEq, Eq, Structural)]
pub enum ReplayDelay {
    /// Not at all.
    Immediate,
    /// For this many nanoseconds.
    Interval { nanos: u64 },
    /// Until the replay's clock shows this many nanoseconds.
    UntilOffset { nanos: u128 },
    /// Until the replay's clock shows `nanos` divided by the double with
    /// the bit pattern `multiplier_bits`.
    UntilScaledOffset { nanos: u128, multiplier_bits: u64 },
}

/// Time spent in calls that fetch packets.
#[derive(Debug, Clone, Copy, PartialEq, Eq, Structural)]
pub struct IoTiming {
    pub total_io_us: u128,
    pub io_call_count: u64,
    pub min_io_us: u128,
    pub max_io_us: u128,
}

/// The position of a replay, apart from the packets themselves.
pub struct ReplayModel {
    pub total_packets: nat,
    pub current_index: nat,
    pub enable_looping: bool,
    pub pending_loop_reset: bool,
    pub clock_started: bool,
    pub packets_replayed: nat,
    pub loops_completed: nat,
}

impl ReplayModel {
    /// The step that comes next.
    pub open spec fn step(self) -> ReplayStep {
        let index = if self.pending_loop_reset {
            0
        } else {
            self.current_index
        };
        if index >= self.total_packets {
            if self.enable_looping {
                ReplayStep::LoopBoundary
            } else {
                ReplayStep::Finished
            }
        } else {
            ReplayStep::Packet {
                index: index as usize,
                restart_clock: self.pending_loop_reset || !self.clock_started,
            }
        }
    }

    /// The position after the next step.
    pub open spec fn advanced(self) -> ReplayModel {
        let index = if self.pending_loop_reset {
            0
        } else {
            self.current_index
        };
        let rewound = ReplayModel {
            pending_loop_reset: false,
            current_index: index,
            clock_started: self.clock_started || self.pending_loop_reset,
            ..self
        };
        if index >= self.total_packets {
            if self.enable_looping {
                ReplayModel {
                    loops_completed: self.loops_completed + 1,
                    pending_loop_reset: true,
                    ..rewound
                }
            } else {
                rewound
            }
        } else {
            ReplayModel {
                current_index: index + 1,
                packets_replayed: self.packets_replayed + 1,
                clock_started: true,
                ..rewound
            }
        }
    }

    /// What holds of every replay: it has packets, no more than can be
    /// indexed, and its cursor is within them or just behind.
    pub open spec fn inv(self) -> bool {
        0 < self.total_packets <= usize::MAX && self.current_index <= self.total_packets
    }
}

/// Looping: when a looping replay reaches the end it reports one
/// boundary, and the step after that is the first packet again, with the
/// clock started anew.
pub proof fn law_loop_restarts_once(m: ReplayModel)
    requires
        m.inv(),
        m.enable_looping,
        m.step() == ReplayStep::LoopBoundary,
    ensures
        m.advanced().loops_completed == m.loops_completed + 1,
        m.advanced().packets_replayed == m.packets_replayed,
        m.advanced().step() == (ReplayStep::Packet { index: 0, restart_clock: true }),
        m.advanced().advanced().current_index == 1,
        m.advanced().inv(),
{
}

/// Without looping, a replay that is used up stays used up.
pub proof fn law_finished_stays_finished(m: ReplayModel)
    requires
        m.inv(),
        m.step() == ReplayStep::Finished,
    ensures
        m.advanced().step() == ReplayStep::Finished,
        m.advanced().packets_replayed == m.packets_replayed,
        m.advanced().loops_completed == m.loops_completed,
{
}

/// Every packet is handed on in order: a step that hands on a packet
/// moves the cursor by one and counts one packet.
pub proof fn law_packets_in_order(m: ReplayModel)
    requires
        m.inv(),
        m.step() is Packet,
    ensures
        m.advanced().current_index == m.step()->Packet_index + 1,
        m.advanced().packets_replayed == m.packets_replayed + 1,
        m.advanced().inv(),
        m.step()->Packet_index < m.total_packets,
{
}

/// The wait that remains when the clock shows `elapsed_nanos` and the
/// packet is due at `target_nanos`: none if the replay is behind.
pub open spec fn spec_residual_wait(target_nanos: u128, elapsed_nanos: u128) -> Option<u128> {
    if target_nanos >= elapsed_nanos {
        Some((target_nanos - elapsed_nanos) as u128)
    } else {
        None
    }
}

/// The wait that remains before a packet due at `target_nanos`.
pub fn residual_wait(target_nanos: u128, elapsed_nanos: u128) -> (wait: Option<u128>)
    ensures
        wait == spec_residual_wait(target_nanos, elapsed_nanos),
{
    if target_nanos >= elapsed_nanos {
        Some(target_nanos - elapsed_nanos)
    } else {
        None
    }
}

/// The time between packets at a fixed rate, in nanoseconds.
pub fn fixed_rate_interval(pps: u64) -> (nanos: u64)
    requires
        pps > 0,
    ensures
        nanos == 1_000_000_000int / (pps as int),
{
    NANOS_PER_SECOND / pps
}

/// A capture in memory that is replayed packet by packet.
pub struct ReplayCapture {
    packets: Vec<RawPacket>,
    current_index: usize,
    loop_count: u64,
    replay_mode: ReplayMode,
    enable_looping: bool,
    first_packet_time: Timestamp,
    clock_started: bool,
    pending_loop_reset: bool,
    packets_replayed: u64,
    loops_completed: u64,
    io_timing: IoTiming,
}

impl View for ReplayCapture {
    type V = ReplayModel;

    closed spec fn view(&self) -> ReplayModel {
        ReplayModel {
            total_packets: self.packets@.len(),
            current_index: self.current_index as nat,
            enable_looping: self.enable_looping,
            pending_loop_reset: self.pending_loop_reset,
            clock_started: self.clock_started,
            packets_replayed: self.packets_replayed as nat,
            loops_completed: self.loops_completed as nat,
        }
    }
}

impl ReplayCapture {
    /// The packets of the capture.
    pub closed spec fn packets(&self) -> Seq<RawPacket> {
        self.packets@
    }

    /// The timing mode.
    pub closed spec fn mode(&self) -> ReplayMode {
        self.replay_mode
    }

    /// The time spent fetching packets so far.
    pub closed spec fn io_timing(&self) -> IoTiming {
        self.io_timing
    }

    /// The replay's consistency.
    pub closed spec fn wf(&self) -> bool {
        &&& self@.inv()
        &&& self.replay_mode.spec_is_valid()
        &&& self.first_packet_time == self.packets@[0].timestamp
        &&& self.loop_count == 0
    }

    /// Sets up the replay of `packets`, which were read from `path`.
    ///
    /// Fails with `OpenFailed` if the mode's parameter is not above zero,
    /// and if there are no packets.
    pub fn open(
        path: &str,
        packets: Vec<RawPacket>,
        replay_mode: ReplayMode,
        enable_looping: bool,
    ) -> (r: Result<ReplayCapture, CaptureError>)
        ensures
            match r {
                Ok(capture) => {
                    &&& replay_mode.spec_is_valid()
                    &&& packets@.len() > 0
                    &&& capture.wf()
                    &&& capture.packets() == packets@
                    &&& capture.mode() == replay_mode
                    &&& capture@ == (ReplayModel {
                        total_packets: packets@.len(),
                        current_index: 0,
                        enable_looping,
                        pending_loop_reset: false,
                        clock_started: false,
                        packets_replayed: 0,
                        loops_completed: 0,
                    })
                    &&& capture.io_timing() == (IoTiming {
                        total_io_us: 0,
                        io_call_count: 0,
                        min_io_us: u128::MAX,
                        max_io_us: 0,
                    })
                },
                Err(CaptureError::OpenFailed(text)) => {
                    if replay_mode matches ReplayMode::FixedRate(_) && !replay_mode.spec_is_valid() {
                        text@ == "FixedRate: packets per second must be > 0"@
                    } else if !replay_mode.spec_is_valid() {
                        text@ == "SpeedMultiplier: multiplier must be > 0.0"@
                    } else {
                        packets@.len() == 0 && text@ == "PCAP file "@ + path@
                            + " contains no packets"@
                    }
                },
                Err(_) => false,
            },
    {
        if !replay_mode.is_valid() {
            return match replay_mode {
                ReplayMode::FixedRate(_) => Err(
                    CaptureError::OpenFailed(
                        String::from_str("FixedRate: packets per second must be > 0"),
                    ),
                ),
                _ => Err(
                    CaptureError::OpenFailed(
                        String::from_str("SpeedMultiplier: multiplier must be > 0.0"),
                    ),
                ),
            };
        }
        if packets.len() == 0 {
            let mut text = String::from_str("PCAP file ");
            text.append(path);
            text.append(" contains no packets");
            return Err(CaptureError::OpenFailed(text));
        }
        let first_packet_time = packets[0].timestamp;
        Ok(
            ReplayCapture {
                packets,
                current_index: 0,
                loop_count: 0,
                replay_mode,
                enable_looping,
                first_packet_time,
                clock_started: false,
                pending_loop_reset: false,
                packets_replayed: 0,
                loops_completed: 0,
                io_timing: IoTiming {
                    total_io_us: 0,
                    io_call_count: 0,
                    min_io_us: u128::MAX,
                    max_io_us: 0,
                },
            },
        )
    }

    /// Whether the counters have room for one more step.
    pub fn can_advance(&self) -> (ok: bool)
        ensures
            ok == (self@.packets_replayed < u64::MAX && self@.loops_completed < u64::MAX),
    {
        self.packets_replayed < u64::MAX && self.loops_completed < u64::MAX
    }

    /// Decides the next step and moves the replay past it.
    pub fn next_step(&mut self) -> (step: ReplayStep)
        requires
            old(self).wf(),
            old(self)@.packets_replayed < u64::MAX,
            old(self)@.loops_completed < u64::MAX,
        ensures
            step == old(self)@.step(),
            final(self)@ == old(self)@.advanced(),
            final(self).wf(),
            final(self).packets() == old(self).packets(),
            final(self).mode() == old(self).mode(),
            final(self).io_timing() == old(self).io_timing(),
    {
        let restart = self.pending_loop_reset || !self.clock_started;
        if self.pending_loop_reset {
            self.pending_loop_reset = false;
            self.current_index = 0;
            self.clock_started = true;
        }
        if self.current_index >= self.packets.len() {
            if !self.enable_looping {
                return ReplayStep::Finished;
            }
            self.loops_completed = self.loops_completed + 1;
            self.pending_loop_reset = true;
            return ReplayStep::LoopBoundary;
        }
        let index = self.current_index;
        self.clock_started = true;
        self.current_index = self.current_index + 1;
        self.packets_replayed = self.packets_replayed + 1;
        ReplayStep::Packet { index, restart_clock: restart }
    }

    /// The packet at `index`, stamped with the time `now` at which it is
    /// handed on.
    pub fn packet_at(&self, index: usize, now: Timestamp) -> (p: RawPacket)
        requires
            index < self.packets().len(),
        ensures
            p.data@ == self.packets()[index as int].data@,
            p.length == self.packets()[index as int].length,
            p.timestamp == now,
    {
        let original = &self.packets[index];
        let mut data: Vec<u8> = Vec::new();
        let mut i: usize = 0;
        while i < original.data.len()
            invariant
                i <= original.data@.len(),
                data@ == original.data@.take(i as int),
            decreases original.data@.len() - i,
        {
            data.push(original.data[i]);
            assert(original.data@.take(i + 1) =~= original.data@.take(i as int).push(
                original.data@[i as int],
            ));
            i = i + 1;
        }
        assert(original.data@.take(i as int) =~= original.data@);
        RawPacket { data, timestamp: now, length: original.length }
    }

    /// The delay that the timing mode asks for before the packet at
    /// `index`; it fails if the packet was captured before the first one.
    pub open spec fn spec_delay_for(&self, index: int) -> Result<ReplayDelay, ()> {
        let first = self.packets()[0].timestamp;
        let own = self.packets()[index].timestamp;
        match self.mode() {
            ReplayMode::Fast => Ok(ReplayDelay::Immediate),
            ReplayMode::FixedRate(pps) => Ok(
                ReplayDelay::Interval { nanos: (1_000_000_000int / (pps as int)) as u64 },
            ),
            ReplayMode::OriginalTiming => if own.nanos >= first.nanos {
                Ok(ReplayDelay::UntilOffset { nanos: (own.nanos - first.nanos) as u128 })
            } else {
                Err(())
            },
            ReplayMode::SpeedMultiplier(bits) => if own.nanos >= first.nanos {
                Ok(
                    ReplayDelay::UntilScaledOffset {
                        nanos: (own.nanos - first.nanos) as u128,
                        multiplier_bits: bits,
                    },
                )
            } else {
                Err(())
            },
        }
    }

    /// The delay before the packet at `index`.
    pub fn delay_for(&self, index: usize) -> (r: Result<ReplayDelay, CaptureError>)
        requires
            self.wf(),
            index < self.packets().len(),
        ensures
            match r {
                Ok(delay) => self.spec_delay_for(index as int) == Ok::<ReplayDelay, ()>(delay),
                Err(CaptureError::ReadFailed(text)) => self.spec_delay_for(index as int) is Err
                    && text@
                    == "Time calculation error: second time provided was later than self"@,
                Err(_) => false,
            },
    {
        let own = self.packets[index].timestamp;
        match self.replay_mode {
            ReplayMode::Fast => Ok(ReplayDelay::Immediate),
            ReplayMode::FixedRate(pps) => Ok(
                ReplayDelay::Interval { nanos: fixed_rate_interval(pps) },
            ),
            ReplayMode::OriginalTiming => if own.nanos >= self.first_packet_time.nanos {
                Ok(ReplayDelay::UntilOffset { nanos: own.nanos - self.first_packet_time.nanos })
            } else {
                Err(
                    CaptureError::ReadFailed(
                        String::from_str(
                            "Time calculation error: second time provided was later than self",
                        ),
                    ),
                )
            },
            ReplayMode::SpeedMultiplier(bits) => if own.nanos >= self.first_packet_time.nanos {
                Ok(
                    ReplayDelay::UntilScaledOffset {
                        nanos: own.nanos - self.first_packet_time.nanos,
                        multiplier_bits: bits,
                    },
                )
            } else {
                Err(
                    CaptureError::ReadFailed(
                        String::from_str(
                            "Time calculation error: second time provided was later than self",
                        ),
                    ),
                )
            },
        }
    }

    /// Progress of the replay.
    pub fn replay_stats(&self) -> (s: ReplayStats)
        requires
            self.wf(),
        ensures
            s.packets_replayed == self@.packets_replayed,
            s.loops_completed == self@.loops_completed,
            s.current_loop == 0,
            s.total_packets == self@.total_packets,
    {
        ReplayStats {
            packets_replayed: self.packets_replayed,
            loops_completed: self.loops_completed,
            current_loop: self.loop_count,
            total_packets: self.packets.len() as u64,
        }
    }

    /// The counters of the capture interface: a replay drops nothing.
    pub fn stats(&self) -> (s: CaptureStats)
        ensures
            s.packets_received == self@.packets_replayed,
            s.packets_dropped == 0,
    {
        CaptureStats { packets_received: self.packets_replayed, packets_dropped: 0 }
    }

    /// Adds the duration of one fetch, in microseconds, to the timing.
    pub fn record_io_time(&mut self, elapsed_us: u128)
        requires
            old(self).io_timing().total_io_us + elapsed_us <= u128::MAX,
            old(self).io_timing().io_call_count < u64::MAX,
        ensures
            final(self).io_timing() == (IoTiming {
                total_io_us: (old(self).io_timing().total_io_us + elapsed_us) as u128,
                io_call_count: (old(self).io_timing().io_call_count + 1) as u64,
                min_io_us: if elapsed_us < old(self).io_timing().min_io_us {
                    elapsed_us
                } else {
                    old(self).io_timing().min_io_us
                },
                max_io_us: if elapsed_us > old(self).io_timing().max_io_us {
                    elapsed_us
                } else {
                    old(self).io_timing().max_io_us
                },
            }),
            final(self)@ == old(self)@,
            final(self).wf() == old(self).wf(),
            final(self).packets() == old(self).packets(),
            final(self).mode() == old(self).mode(),
    {
        self.io_timing.total_io_us = self.io_timing.total_io_us + elapsed_us;
        self.io_timing.io_call_count = self.io_timing.io_call_count + 1;
        if elapsed_us < self.io_timing.min_io_us {
            self.io_timing.min_io_us = elapsed_us;
        }
        if elapsed_us > self.io_timing.max_io_us {
            self.io_timing.max_io_us = elapsed_us;
        }
    }

    /// Total, number, minimum and maximum of the recorded fetch times.
    pub fn get_io_stats(&self) -> (s: (u128, u64, u128, u128))
        ensures
            s == (
                self.io_timing().total_io_us,
                self.io_timing().io_call_count,
                self.io_timing().min_io_us,
                self.io_timing().max_io_us,
            ),
    {
        (
            self.io_timing.total_io_us,
            self.io_timing.io_call_count,
            self.io_timing.min_io_us,
            self.io_timing.max_io_us,
        )
    }
}

} // verus!
