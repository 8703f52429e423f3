//! Value types exchanged between the capture, detection and tracking stages.

use std::collections::HashMap;
use vstd::prelude::*;

verus! {

/// A point in time, counted in nanoseconds since the Unix epoch.
#[derive(Debug, Clone, Copy, PartialEq, Eq, Structural)]
pub struct Timestamp {
    pub nanos: u128,
}

impl Timestamp {
    pub fn from_nanos(nanos: u128) -> (t: Timestamp)
        ensures
            t.nanos == nanos,
    {
        Timestamp { nanos }
    }

    pub fn from_micros(micros: u64) -> (t: Timestamp)
        ensures
            t.nanos == micros * 1_000,
    {
        Timestamp { nanos: (micros as u128) * 1_000 }
    }

    pub fn from_millis(millis: u64) -> (t: Timestamp)
        ensures
            t.nanos == millis * 1_000_000,
    {
        Timestamp { nanos: (millis as u128) * 1_000_000 }
    }

    /// The time `secs` seconds and `micros` microseconds after the epoch,
    /// as a capture record holds it.
    pub fn from_secs_micros(secs: u64, micros: u64) -> (t: Timestamp)
        ensures
            t.nanos == secs * 1_000_000_000 + micros * 1_000,
    {
        Timestamp { nanos: (secs as u128) * 1_000_000_000 + (micros as u128) * 1_000 }
    }

    pub fn from_secs(secs: u64) -> (t: Timestamp)
        ensures
            t.nanos == secs * 1_000_000_000,
    {
        Timestamp { nanos: (secs as u128) * 1_000_000_000 }
    }

    /// Whole microseconds from `earlier` to `self`, reduced modulo 2^64;
    /// undefined (`None`) when `self` lies before `earlier`.
    pub open spec fn spec_micros_since(self, earlier: Timestamp) -> Option<u64> {
        if self.nanos >= earlier.nanos {
            Some((((self.nanos - earlier.nanos) / 1_000) % 0x1_0000_0000_0000_0000) as u64)
        } else {
            None
        }
    }

    /// Elapsed whole microseconds since `earlier`, or `None` if `earlier`
    /// is the later of the two.
    pub fn micros_since(&self, earlier: &Timestamp) -> (d: Option<u64>)
        ensures
            d == self.spec_micros_since(*earlier),
    {
        if self.nanos >= earlier.nanos {
            let micros: u128 = (self.nanos - earlier.nanos) / 1_000;
            Some((micros % 0x1_0000_0000_0000_0000) as u64)
        } else {
            None
        }
    }
}

/// A span of time in whole microseconds.
#[derive(Debug, Clone, Copy, PartialEq, Eq, Structural)]
pub struct Interval {
    pub micros: u64,
}

impl Interval {
    pub fn from_micros(micros: u64) -> (d: Interval)
        ensures
            d.micros == micros,
    {
        Interval { micros }
    }

    pub fn from_millis(millis: u64) -> (d: Interval)
        requires
            millis * 1_000 <= u64::MAX,
        ensures
            d.micros == millis * 1_000,
    {
        Interval { micros: millis * 1_000 }
    }

    pub fn as_micros(&self) -> (m: u64)
        ensures
            m == self.micros,
    {
        self.micros
    }
}

/// An IPv4 or IPv6 address held as its big-endian integer value.
#[derive(Debug, Clone, Copy, PartialEq, Eq, Hash, PartialOrd, Ord, Structural)]
pub enum IpAddress {
    V4(u32),
    V6(u128),
}

/// The integer whose big-endian bytes are `a, b, c, d`.
pub open spec fn spec_ipv4_bits(a: u8, b: u8, c: u8, d: u8) -> u32 {
    (a as u32 * 0x100_0000 + b as u32 * 0x1_0000 + c as u32 * 0x100 + d as u32) as u32
}

impl IpAddress {
    /// The IPv4 address `a.b.c.d`.
    pub fn v4(a: u8, b: u8, c: u8, d: u8) -> (ip: IpAddress)
        ensures
            ip == IpAddress::V4(spec_ipv4_bits(a, b, c, d)),
    {
        IpAddress::V4(a as u32 * 0x100_0000 + b as u32 * 0x1_0000 + c as u32 * 0x100 + d as u32)
    }

    pub open spec fn spec_is_v6(self) -> bool {
        self is V6
    }

    /// The address as a 128-bit number (IPv4 addresses are below 2^32).
    pub open spec fn spec_bits(self) -> u128 {
        match self {
            IpAddress::V4(b) => b as u128,
            IpAddress::V6(b) => b,
        }
    }

    pub fn bits(&self) -> (b: u128)
        ensures
            b == self.spec_bits(),
    {
        match self {
            IpAddress::V4(b) => *b as u128,
            IpAddress::V6(b) => *b,
        }
    }

    /// The four octets of an IPv4 address, most significant first.
    pub open spec fn spec_octets(bits: u32) -> (u8, u8, u8, u8) {
        (
            (bits / 0x100_0000) as u8,
            ((bits / 0x1_0000) % 0x100) as u8,
            ((bits / 0x100) % 0x100) as u8,
            (bits % 0x100) as u8,
        )
    }

    pub fn octets(bits: u32) -> (o: (u8, u8, u8, u8))
        ensures
            o == Self::spec_octets(bits),
            spec_ipv4_bits(o.0, o.1, o.2, o.3) == bits,
    {
        (
            (bits / 0x100_0000) as u8,
            ((bits / 0x1_0000) % 0x100) as u8,
            ((bits / 0x100) % 0x100) as u8,
            (bits % 0x100) as u8,
        )
    }
}

/// Identifies one flow; the variant says which protocol keyed it.
#[derive(Debug, Clone, Copy, PartialEq, Eq, Hash, PartialOrd, Ord, Structural)]
pub enum FlowId {
    /// One MACsec secure channel, by its Secure Channel Identifier.
    MACsec { sci: u64 },
    /// One ESP security association, by SPI and destination address.
    IPsec { spi: u32, dst_ip: IpAddress },
    /// One transport 5-tuple; `protocol` is the IP protocol number.
    GenericL3 { src_ip: IpAddress, dst_ip: IpAddress, src_port: u16, dst_port: u16, protocol: u8 },
}

/// Integer form of a `FlowId`, used to key hash maps.
pub type FlowKey = (u8, u128, u128, u64);

impl FlowId {
    pub open spec fn spec_is_generic(self) -> bool {
        self is GenericL3
    }

    /// Whether sequence tracking is suppressed for this flow.
    pub fn is_generic(&self) -> (b: bool)
        ensures
            b == self.spec_is_generic(),
    {
        match self {
            FlowId::GenericL3 { .. } => true,
            _ => false,
        }
    }

    /// An injective encoding of the flow identifier as integers: a tag for
    /// the variant and address families, the two addresses, and the
    /// remaining fields packed into 64 bits.
    pub open spec fn spec_key(self) -> FlowKey {
        match self {
            FlowId::MACsec { sci } => (0u8, 0u128, 0u128, sci),
            FlowId::IPsec { spi, dst_ip } => (
                if dst_ip is V6 {
                    2u8
                } else {
                    1u8
                },
                0u128,
                dst_ip.spec_bits(),
                spi as u64,
            ),
            FlowId::GenericL3 { src_ip, dst_ip, src_port, dst_port, protocol } => (
                (3 + (if src_ip is V6 {
                    2int
                } else {
                    0int
                }) + (if dst_ip is V6 {
                    1int
                } else {
                    0int
                })) as u8,
                src_ip.spec_bits(),
                dst_ip.spec_bits(),
                (src_port as u64 * 0x100_0000 + dst_port as u64 * 0x100 + protocol as u64) as u64,
            ),
        }
    }

    pub fn key(&self) -> (k: FlowKey)
        ensures
            k == self.spec_key(),
    {
        match self {
            FlowId::MACsec { sci } => (0u8, 0u128, 0u128, *sci),
            FlowId::IPsec { spi, dst_ip } => {
                let tag: u8 = match dst_ip {
                    IpAddress::V6(_) => 2,
                    IpAddress::V4(_) => 1,
                };
                (tag, 0u128, dst_ip.bits(), *spi as u64)
            },
            FlowId::GenericL3 { src_ip, dst_ip, src_port, dst_port, protocol } => {
                let s: u8 = match src_ip {
                    IpAddress::V6(_) => 2,
                    IpAddress::V4(_) => 0,
                };
                let d: u8 = match dst_ip {
                    IpAddress::V6(_) => 1,
                    IpAddress::V4(_) => 0,
                };
                (
                    3 + s + d,
                    src_ip.bits(),
                    dst_ip.bits(),
                    *src_port as u64 * 0x100_0000 + *dst_port as u64 * 0x100 + *protocol as u64,
                )
            },
        }
    }

    /// Two flow identifiers with the same key are the same identifier.
    pub proof fn lemma_key_injective(a: FlowId, b: FlowId)
        requires
            a.spec_key() == b.spec_key(),
        ensures
            a == b,
    {
        match a {
            FlowId::MACsec { .. } => {},
            FlowId::IPsec { .. } => {},
            FlowId::GenericL3 { src_port, dst_port, protocol, .. } => {
                if let FlowId::GenericL3 {
                    src_port: sp,
                    dst_port: dp,
                    protocol: pr,
                    ..
                } = b {
                    assert(src_port as u64 * 0x100_0000 + dst_port as u64 * 0x100 + protocol as u64
                        == sp as u64 * 0x100_0000 + dp as u64 * 0x100 + pr as u64);
                }
            },
        }
    }
}

/// Raw frame bytes with the capture source's metadata.
#[derive(Debug, Clone)]
pub struct RawPacket {
    pub data: Vec<u8>,
    pub timestamp: Timestamp,
    /// Length on the wire; may exceed `data.len()` when the capture truncated.
    pub length: usize,
}

/// What a parser extracts from one frame.
#[derive(Debug, Clone, Copy, PartialEq, Eq, Structural)]
pub struct SequenceInfo {
    pub sequence_number: u32,
    pub flow_id: FlowId,
    pub payload_length: usize,
}

/// A parsed frame together with its capture time: the tracker's input.
#[derive(Debug, Clone, Copy, PartialEq, Eq, Structural)]
pub struct AnalyzedPacket {
    pub sequence_number: u32,
    pub flow_id: FlowId,
    pub timestamp: Timestamp,
    pub payload_length: usize,
}

/// One contiguous run of missing sequence numbers.
#[derive(Debug, Clone, Copy, PartialEq, Eq, Structural)]
pub struct SequenceGap {
    pub flow_id: FlowId,
    pub expected: u32,
    pub received: u32,
    pub gap_size: u32,
    pub timestamp: Timestamp,
}

/// Snapshot of one flow's counters.
#[derive(Debug, Clone)]
pub struct FlowStats {
    pub flow_id: FlowId,
    pub packets_received: u64,
    pub gaps_detected: u64,
    pub total_lost_packets: u64,
    pub first_sequence: Option<u32>,
    pub last_sequence: Option<u32>,
    pub min_gap: Option<u32>,
    pub max_gap: Option<u32>,
    pub total_bytes: u64,
    pub first_timestamp: Option<Timestamp>,
    pub last_timestamp: Option<Timestamp>,
    pub min_inter_arrival: Option<Interval>,
    pub max_inter_arrival: Option<Interval>,
    pub avg_inter_arrival: Option<Interval>,
    /// IP protocol number to packet count; filled for `GenericL3` flows only.
    pub protocol_distribution: HashMap<u8, u64>,
}

/// Outcome and timing of handling one packet.
#[derive(Debug)]
pub struct ProcessMetrics {
    pub detected: bool,
    pub gap_detected: bool,
    pub detect_us: u128,
    pub track_us: u128,
    pub total_us: u128,
}

/// Counters kept by a capture source.
#[derive(Debug, Clone)]
pub struct CaptureStats {
    pub packets_received: u64,
    pub packets_dropped: u64,
}

/// Result of a complete analysis run.
#[derive(Debug)]
pub struct AnalysisReport {
    pub total_packets: u64,
    pub protocol: String,
    pub gaps: Vec<SequenceGap>,
    pub flow_stats: Vec<FlowStats>,
}

impl AnalysisReport {
    /// An empty report for the named protocol.
    pub fn new(protocol: String) -> (r: AnalysisReport)
        ensures
            r.total_packets == 0,
            r.protocol == protocol,
            r.gaps@.len() == 0,
            r.flow_stats@.len() == 0,
    {
        AnalysisReport { total_packets: 0, protocol, gaps: Vec::new(), flow_stats: Vec::new() }
    }
}

} // verus!
