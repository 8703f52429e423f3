//! Per-flow sequence tracking and gap detection.
//!
//! The behaviour of one flow is given as a mathematical state machine:
//! `FlowModel` is its state and `step` its transition on one packet. The
//! executable `FlowState` and `FlowTracker` are proved to follow it.

use crate::analysis::flow_laws::{lemma_record_arrival_inv, lemma_track_sequence_inv};
use crate::flow_map::{entries, map_get, map_insert, map_new};
use crate::types::{AnalyzedPacket, FlowId, FlowStats, Interval, SequenceGap, Timestamp};
use dashmap::DashMap;
use std::collections::HashMap;
use vstd::prelude::*;

verus! {

/// Reorder window used by `FlowTracker::new`.
pub const DEFAULT_REORDER_WINDOW: u32 = 32;

/// Whether sequence number `a` lies ahead of `b` on the 32-bit circle:
/// the distance from `b` forward to `a` is non-zero and below 2^31.
pub open spec fn spec_seq_after(a: u32, b: u32) -> bool {
    a != b && a.wrapping_sub(b) < 0x8000_0000u32
}

pub fn seq_after(a: u32, b: u32) -> (r: bool)
    ensures
        r == spec_seq_after(a, b),
{
    a != b && a.wrapping_sub(b) < 0x8000_0000u32
}

/// Whether `a` lies behind `b` on the 32-bit circle.
pub open spec fn spec_seq_before(a: u32, b: u32) -> bool {
    a != b && !spec_seq_after(a, b)
}

/// The smaller of a running minimum and a new value.
pub open spec fn lower_of(current: Option<u32>, v: u32) -> Option<u32> {
    match current {
        Some(c) => if v < c {
            Some(v)
        } else {
            Some(c)
        },
        None => Some(v),
    }
}

/// The larger of a running maximum and a new value.
pub open spec fn upper_of(current: Option<u32>, v: u32) -> Option<u32> {
    match current {
        Some(c) => if v > c {
            Some(v)
        } else {
            Some(c)
        },
        None => Some(v),
    }
}

/// The smaller of a running minimum and a new value (64-bit).
pub open spec fn lower_of_us(current: Option<u64>, v: u64) -> Option<u64> {
    match current {
        Some(c) => if v < c {
            Some(v)
        } else {
            Some(c)
        },
        None => Some(v),
    }
}

/// The larger of a running maximum and a new value (64-bit).
pub open spec fn upper_of_us(current: Option<u64>, v: u64) -> Option<u64> {
    match current {
        Some(c) => if v > c {
            Some(v)
        } else {
            Some(c)
        },
        None => Some(v),
    }
}

/// A table of 64-bit counters read as a table of natural numbers.
pub open spec fn as_counts(table: Map<u8, u64>) -> Map<u8, nat> {
    Map::new(|k: u8| table.contains_key(k), |k: u8| table[k] as nat)
}

/// Sum of the sizes of a list of gaps.
pub open spec fn sum_gap_sizes(gaps: Seq<SequenceGap>) -> nat
    decreases gaps.len(),
{
    if gaps.len() == 0 {
        0
    } else {
        sum_gap_sizes(gaps.drop_last()) + gaps.last().gap_size as nat
    }
}

/// Smallest size among a list of gaps.
pub open spec fn min_gap_size(gaps: Seq<SequenceGap>) -> Option<u32>
    decreases gaps.len(),
{
    if gaps.len() == 0 {
        None
    } else {
        lower_of(min_gap_size(gaps.drop_last()), gaps.last().gap_size)
    }
}

/// Largest size among a list of gaps.
pub open spec fn max_gap_size(gaps: Seq<SequenceGap>) -> Option<u32>
    decreases gaps.len(),
{
    if gaps.len() == 0 {
        None
    } else {
        upper_of(max_gap_size(gaps.drop_last()), gaps.last().gap_size)
    }
}

/// Whether a buffer is ordered by strictly increasing sequence number.
pub open spec fn buffer_sorted(buf: Seq<AnalyzedPacket>) -> bool {
    forall|i: int, j: int|
        0 <= i < j < buf.len() ==> buf[i].sequence_number < buf[j].sequence_number
}

/// Whether a buffer holds a packet with sequence number `s`.
pub open spec fn buffered(buf: Seq<AnalyzedPacket>, s: u32) -> bool {
    exists|i: int| 0 <= i < buf.len() && buf[i].sequence_number == s
}

/// The buffer with `p` put at its place in the order; a packet with the
/// same sequence number is replaced.
pub open spec fn insert_sorted(buf: Seq<AnalyzedPacket>, p: AnalyzedPacket) -> Seq<AnalyzedPacket>
    decreases buf.len(),
{
    if buf.len() == 0 {
        seq![p]
    } else if buf.last().sequence_number < p.sequence_number {
        buf.push(p)
    } else if buf.last().sequence_number == p.sequence_number {
        buf.drop_last().push(p)
    } else {
        insert_sorted(buf.drop_last(), p).push(buf.last())
    }
}

/// The buffer after storing `p` under a bound of `window` entries: when
/// the bound is exceeded the entry with the lowest sequence number leaves.
pub open spec fn buffer_store(buf: Seq<AnalyzedPacket>, p: AnalyzedPacket, window: nat) -> Seq<
    AnalyzedPacket,
> {
    let stored = insert_sorted(buf, p);
    if stored.len() > window {
        stored.drop_first()
    } else {
        stored
    }
}

/// State of one flow.
pub struct FlowModel {
    pub flow_id: FlowId,
    pub window: nat,
    pub highest_sequence: Option<u32>,
    pub expected_sequence: Option<u32>,
    pub first_sequence: Option<u32>,
    pub last_sequence: Option<u32>,
    pub reorder_buffer: Seq<AnalyzedPacket>,
    pub gaps: Seq<SequenceGap>,
    pub packets_received: nat,
    pub total_lost: nat,
    pub min_gap: Option<u32>,
    pub max_gap: Option<u32>,
    pub total_bytes: nat,
    pub first_timestamp: Option<Timestamp>,
    pub last_timestamp: Option<Timestamp>,
    pub min_inter_arrival_us: Option<u64>,
    pub max_inter_arrival_us: Option<u64>,
    pub total_inter_arrival_us: nat,
    pub inter_arrival_count: nat,
    pub protocol_distribution: Map<u8, nat>,
}

impl FlowModel {
    /// The state of a flow that has seen no packet.
    pub open spec fn fresh(flow_id: FlowId, window: nat) -> FlowModel {
        FlowModel {
            flow_id,
            window,
            highest_sequence: None,
            expected_sequence: None,
            first_sequence: None,
            last_sequence: None,
            reorder_buffer: Seq::empty(),
            gaps: Seq::empty(),
            packets_received: 0,
            total_lost: 0,
            min_gap: None,
            max_gap: None,
            total_bytes: 0,
            first_timestamp: None,
            last_timestamp: None,
            min_inter_arrival_us: None,
            max_inter_arrival_us: None,
            total_inter_arrival_us: 0,
            inter_arrival_count: 0,
            protocol_distribution: Map::empty(),
        }
    }

    /// What holds of every state that `step` can reach from `fresh`.
    pub open spec fn inv(self) -> bool {
        // the sequence fields are set together
        &&& self.first_sequence is Some <==> self.highest_sequence is Some
        &&& self.first_sequence is Some <==> self.expected_sequence is Some
        &&& self.first_sequence is Some <==> self.last_sequence is Some
        &&& self.expected_sequence is Some ==> self.expected_sequence.unwrap()
            == self.highest_sequence.unwrap().wrapping_add(1)
        // a 5-tuple flow is counted, never sequenced
        &&& self.flow_id is GenericL3 ==> self.first_sequence is None && self.gaps.len() == 0
            && self.reorder_buffer.len() == 0
        // the reorder buffer is ordered, without duplicates, and bounded
        &&& buffer_sorted(self.reorder_buffer)
        &&& self.reorder_buffer.len() <= self.window
        // gap accounting
        &&& self.total_lost == sum_gap_sizes(self.gaps)
        &&& self.min_gap == min_gap_size(self.gaps)
        &&& self.max_gap == max_gap_size(self.gaps)
        &&& self.gaps.len() <= self.packets_received
        &&& forall|i: int| 0 <= i < self.gaps.len() ==> self.gaps[i].flow_id == self.flow_id
        // arrival statistics
        &&& self.first_timestamp is Some <==> self.packets_received > 0
        &&& self.last_timestamp is Some <==> self.packets_received > 0
        &&& self.packets_received > 0 ==> self.inter_arrival_count < self.packets_received
        &&& self.packets_received == 0 ==> self.inter_arrival_count == 0
        &&& self.min_inter_arrival_us is Some <==> self.inter_arrival_count > 0
        &&& self.max_inter_arrival_us is Some <==> self.inter_arrival_count > 0
        // the protocol distribution has one entry, for 5-tuple flows only
        &&& match self.flow_id {
            FlowId::GenericL3 { protocol, .. } => if self.packets_received == 0 {
                self.protocol_distribution == Map::<u8, nat>::empty()
            } else {
                self.protocol_distribution == Map::<u8, nat>::empty().insert(
                    protocol,
                    self.packets_received,
                )
            },
            _ => self.protocol_distribution == Map::<u8, nat>::empty(),
        }
    }

    /// Microseconds between the previous arrival and `p`, where both are
    /// known and `p` is not the earlier one.
    pub open spec fn arrival_delta(self, p: AnalyzedPacket) -> Option<u64> {
        match self.last_timestamp {
            Some(previous) => p.timestamp.spec_micros_since(previous),
            None => None,
        }
    }

    /// The statistics update that every packet of the flow causes.
    pub open spec fn record_arrival(self, p: AnalyzedPacket) -> FlowModel {
        let delta = self.arrival_delta(p);
        FlowModel {
            packets_received: self.packets_received + 1,
            total_bytes: self.total_bytes + p.payload_length as nat,
            min_inter_arrival_us: match delta {
                Some(d) => lower_of_us(self.min_inter_arrival_us, d),
                None => self.min_inter_arrival_us,
            },
            max_inter_arrival_us: match delta {
                Some(d) => upper_of_us(self.max_inter_arrival_us, d),
                None => self.max_inter_arrival_us,
            },
            total_inter_arrival_us: match delta {
                Some(d) => self.total_inter_arrival_us + d as nat,
                None => self.total_inter_arrival_us,
            },
            inter_arrival_count: match delta {
                Some(d) => self.inter_arrival_count + 1,
                None => self.inter_arrival_count,
            },
            first_timestamp: if self.first_timestamp is None {
                Some(p.timestamp)
            } else {
                self.first_timestamp
            },
            last_timestamp: Some(p.timestamp),
            protocol_distribution: match self.flow_id {
                FlowId::GenericL3 { protocol, .. } => self.protocol_distribution.insert(
                    protocol,
                    if self.protocol_distribution.contains_key(protocol) {
                        self.protocol_distribution[protocol] + 1
                    } else {
                        1
                    },
                ),
                _ => self.protocol_distribution,
            },
            ..self
        }
    }

    /// Whether `p` opens a gap: the flow has a sequence position, `p` is
    /// not the expected packet, and it lies ahead of everything seen.
    pub open spec fn is_forward_jump(self, p: AnalyzedPacket) -> bool {
        &&& !(self.flow_id is GenericL3)
        &&& self.first_sequence is Some
        &&& p.sequence_number != self.expected_sequence.unwrap()
        &&& spec_seq_after(p.sequence_number, self.highest_sequence.unwrap())
    }

    /// Whether `p` is a late arrival that the buffer does not hold yet.
    pub open spec fn is_late(self, p: AnalyzedPacket) -> bool {
        &&& !(self.flow_id is GenericL3)
        &&& self.first_sequence is Some
        &&& p.sequence_number != self.expected_sequence.unwrap()
        &&& spec_seq_before(p.sequence_number, self.highest_sequence.unwrap())
        &&& !buffered(self.reorder_buffer, p.sequence_number)
    }

    /// The gap that `p` opens, if it opens one; `now` is the time of
    /// detection.
    pub open spec fn emitted_gap(self, p: AnalyzedPacket, now: Timestamp) -> Option<SequenceGap> {
        if self.is_forward_jump(p) {
            Some(
                SequenceGap {
                    flow_id: self.flow_id,
                    expected: self.expected_sequence.unwrap(),
                    received: p.sequence_number,
                    gap_size: p.sequence_number.wrapping_sub(self.expected_sequence.unwrap()),
                    timestamp: now,
                },
            )
        } else {
            None
        }
    }

    /// The sequence part of the transition; not applied to 5-tuple flows.
    pub open spec fn track_sequence(self, p: AnalyzedPacket, now: Timestamp) -> FlowModel {
        let s = p.sequence_number;
        if self.first_sequence is None {
            FlowModel {
                first_sequence: Some(s),
                expected_sequence: Some(s.wrapping_add(1)),
                highest_sequence: Some(s),
                last_sequence: Some(s),
                ..self
            }
        } else if s == self.expected_sequence.unwrap() {
            FlowModel {
                last_sequence: Some(s),
                expected_sequence: Some(s.wrapping_add(1)),
                highest_sequence: Some(s),
                ..self
            }
        } else if self.is_forward_jump(p) {
            let gap = self.emitted_gap(p, now).unwrap();
            FlowModel {
                last_sequence: Some(s),
                expected_sequence: Some(s.wrapping_add(1)),
                highest_sequence: Some(s),
                reorder_buffer: buffer_store(self.reorder_buffer, p, self.window),
                gaps: self.gaps.push(gap),
                total_lost: self.total_lost + gap.gap_size as nat,
                min_gap: lower_of(self.min_gap, gap.gap_size),
                max_gap: upper_of(self.max_gap, gap.gap_size),
                ..self
            }
        } else if self.is_late(p) {
            FlowModel {
                last_sequence: Some(s),
                reorder_buffer: buffer_store(self.reorder_buffer, p, self.window),
                ..self
            }
        } else {
            FlowModel { last_sequence: Some(s), ..self }
        }
    }

    /// The flow's state after packet `p`, handled at time `now`.
    pub open spec fn step(self, p: AnalyzedPacket, now: Timestamp) -> FlowModel {
        let counted = self.record_arrival(p);
        if self.flow_id is GenericL3 {
            counted
        } else {
            counted.track_sequence(p, now)
        }
    }

    /// Whether the flow's 64-bit counters can take packet `p`.
    pub open spec fn has_room(self, p: AnalyzedPacket) -> bool {
        &&& self.packets_received < u64::MAX
        &&& self.total_bytes + p.payload_length <= u64::MAX
        &&& match self.arrival_delta(p) {
            Some(d) => self.total_inter_arrival_us + d <= u64::MAX,
            None => true,
        }
        &&& self.is_forward_jump(p) ==> self.total_lost + p.sequence_number.wrapping_sub(
            self.expected_sequence.unwrap(),
        ) <= u64::MAX
    }

    /// Average gap between arrivals in whole microseconds.
    pub open spec fn avg_inter_arrival_us(self) -> Option<u64> {
        if self.inter_arrival_count > 0 {
            Some((self.total_inter_arrival_us / self.inter_arrival_count) as u64)
        } else {
            None
        }
    }
}

/// Whether a statistics snapshot shows the state `m`.
pub open spec fn describes(s: FlowStats, m: FlowModel) -> bool {
    &&& s.flow_id == m.flow_id
    &&& s.packets_received == m.packets_received
    &&& s.gaps_detected == m.gaps.len()
    &&& s.total_lost_packets == m.total_lost
    &&& s.first_sequence == m.first_sequence
    &&& s.last_sequence == m.last_sequence
    &&& s.min_gap == m.min_gap
    &&& s.max_gap == m.max_gap
    &&& s.total_bytes == m.total_bytes
    &&& s.first_timestamp == m.first_timestamp
    &&& s.last_timestamp == m.last_timestamp
    &&& s.min_inter_arrival == match m.min_inter_arrival_us {
        Some(us) => Some(Interval { micros: us }),
        None => None,
    }
    &&& s.max_inter_arrival == match m.max_inter_arrival_us {
        Some(us) => Some(Interval { micros: us }),
        None => None,
    }
    &&& s.avg_inter_arrival == match m.avg_inter_arrival_us() {
        Some(us) => Some(Interval { micros: us }),
        None => None,
    }
    &&& as_counts(s.protocol_distribution@) == m.protocol_distribution
}

/// Position of the flow `flow_id` in a list of flow states.
pub open spec fn find_flow(flows: Seq<FlowModel>, flow_id: FlowId) -> Option<int> {
    if exists|i: int| 0 <= i < flows.len() && flows[i].flow_id == flow_id {
        Some(choose|i: int| 0 <= i < flows.len() && flows[i].flow_id == flow_id)
    } else {
        None
    }
}

/// The state that packet `p` will be applied to: that of its flow, or a
/// fresh one if the flow is new.
pub open spec fn state_for(flows: Seq<FlowModel>, flow_id: FlowId, window: nat) -> FlowModel {
    match find_flow(flows, flow_id) {
        Some(i) => flows[i],
        None => FlowModel::fresh(flow_id, window),
    }
}

/// The tracker's flows after packet `p`: its flow's state is stepped; a
/// new flow is appended.
pub open spec fn track(flows: Seq<FlowModel>, p: AnalyzedPacket, now: Timestamp, window: nat) -> Seq<
    FlowModel,
> {
    match find_flow(flows, p.flow_id) {
        Some(i) => flows.update(i, flows[i].step(p, now)),
        None => flows.push(FlowModel::fresh(p.flow_id, window).step(p, now)),
    }
}

/// All gaps of all flows, flow by flow in the order the flows were first
/// seen, and within a flow in order of detection.
pub open spec fn all_gaps(flows: Seq<FlowModel>) -> Seq<SequenceGap>
    decreases flows.len(),
{
    if flows.len() == 0 {
        Seq::empty()
    } else {
        all_gaps(flows.drop_last()) + flows.last().gaps
    }
}

/// Whether no two states in the list are for the same flow.
pub open spec fn distinct_flows(flows: Seq<FlowModel>) -> bool {
    forall|i: int, j: int|
        0 <= i < flows.len() && 0 <= j < flows.len() && flows[i].flow_id == flows[j].flow_id ==> i
            == j
}


/// Reads the wall clock with `std::time::SystemTime::now` and hands it on
/// as a `Timestamp`; a clock set before 1970 reads as the epoch. Nothing is
/// known of the value.
#[verifier::external_body]
pub(crate) fn wall_clock_now() -> (now: Timestamp) {
    match std::time::SystemTime::now().duration_since(std::time::UNIX_EPOCH) {
        Ok(since_epoch) => Timestamp { nanos: since_epoch.as_nanos() },
        Err(_) => Timestamp { nanos: 0 },
    }
}

/// For every `i` at or after `from`, the buffer's entries have sequence
/// numbers above that of `p`; then inserting `p` only touches the part
/// before `from`.
proof fn lemma_insert_sorted_tail(buf: Seq<AnalyzedPacket>, p: AnalyzedPacket, from: int)
    requires
        0 <= from <= buf.len(),
        forall|k: int| from <= k < buf.len() ==> buf[k].sequence_number > p.sequence_number,
    ensures
        insert_sorted(buf, p) == insert_sorted(buf.take(from), p) + buf.skip(from),
    decreases buf.len() - from,
{
    if from == buf.len() {
        assert(buf.take(from) =~= buf);
        assert(insert_sorted(buf, p) + buf.skip(from) =~= insert_sorted(buf, p));
    } else {
        let rest = buf.drop_last();
        lemma_insert_sorted_tail(rest, p, from);
        assert(rest.take(from) =~= buf.take(from));
        assert(rest.skip(from).push(buf.last()) =~= buf.skip(from));
        assert((insert_sorted(rest.take(from), p) + rest.skip(from)).push(buf.last()) =~= insert_sorted(
            buf.take(from),
            p,
        ) + buf.skip(from));
    }
}

/// Whether the buffer holds a packet with sequence number `s`.
fn is_buffered(buf: &Vec<AnalyzedPacket>, s: u32) -> (found: bool)
    ensures
        found == buffered(buf@, s),
{
    let mut i: usize = 0;
    while i < buf.len()
        invariant
            i <= buf.len(),
            forall|k: int| 0 <= k < i ==> buf@[k].sequence_number != s,
        decreases buf.len() - i,
    {
        if buf[i].sequence_number == s {
            return true;
        }
        i = i + 1;
    }
    false
}

/// Stores `p` in the ordered buffer and evicts the lowest entry if the
/// buffer outgrows `window`.
fn store_in_buffer(buf: &mut Vec<AnalyzedPacket>, p: AnalyzedPacket, window: u32)
    ensures
        final(buf)@ == buffer_store(old(buf)@, p, window as nat),
{
    let ghost before = buf@;
    let mut i: usize = buf.len();
    while i > 0 && buf[i - 1].sequence_number > p.sequence_number
        invariant
            i <= buf.len(),
            buf@ == before,
            forall|k: int| i <= k < buf.len() ==> buf@[k].sequence_number > p.sequence_number,
        decreases i,
    {
        i = i - 1;
    }
    proof {
        lemma_insert_sorted_tail(before, p, i as int);
    }
    if i > 0 && buf[i - 1].sequence_number == p.sequence_number {
        buf[i - 1] = p;
        proof {
            let head = before.take(i as int);
            assert(head.drop_last().push(p) + before.skip(i as int) =~= before.update(i - 1, p));
        }
    } else {
        buf.insert(i, p);
        proof {
            let head = before.take(i as int);
            if i > 0 {
                assert(head.last() == before[i - 1]);
            }
            assert(insert_sorted(head, p) =~= head.push(p));
            assert(head.push(p) + before.skip(i as int) =~= before.insert(i as int, p));
        }
    }
    assert(buf@ == insert_sorted(before, p));
    if buf.len() > window as usize {
        buf.remove(0);
        assert(buf@ =~= insert_sorted(before, p).drop_first());
    }
}

/// Executable state of one flow.
pub struct FlowState {
    flow_id: FlowId,
    window: u32,
    highest_sequence: Option<u32>,
    expected_sequence: Option<u32>,
    first_sequence: Option<u32>,
    last_sequence: Option<u32>,
    reorder_buffer: Vec<AnalyzedPacket>,
    gaps: Vec<SequenceGap>,
    packets_received: u64,
    total_lost: u64,
    min_gap: Option<u32>,
    max_gap: Option<u32>,
    total_bytes: u64,
    first_timestamp: Option<Timestamp>,
    last_timestamp: Option<Timestamp>,
    min_inter_arrival_us: Option<u64>,
    max_inter_arrival_us: Option<u64>,
    total_inter_arrival_us: u64,
    inter_arrival_count: u64,
    protocol_distribution: HashMap<u8, u64>,
}

impl View for FlowState {
    type V = FlowModel;

    closed spec fn view(&self) -> FlowModel {
        FlowModel {
            flow_id: self.flow_id,
            window: self.window as nat,
            highest_sequence: self.highest_sequence,
            expected_sequence: self.expected_sequence,
            first_sequence: self.first_sequence,
            last_sequence: self.last_sequence,
            reorder_buffer: self.reorder_buffer@,
            gaps: self.gaps@,
            packets_received: self.packets_received as nat,
            total_lost: self.total_lost as nat,
            min_gap: self.min_gap,
            max_gap: self.max_gap,
            total_bytes: self.total_bytes as nat,
            first_timestamp: self.first_timestamp,
            last_timestamp: self.last_timestamp,
            min_inter_arrival_us: self.min_inter_arrival_us,
            max_inter_arrival_us: self.max_inter_arrival_us,
            total_inter_arrival_us: self.total_inter_arrival_us as nat,
            inter_arrival_count: self.inter_arrival_count as nat,
            protocol_distribution: as_counts(self.protocol_distribution@),
        }
    }
}

impl FlowState {
    /// The state of a flow that has seen no packet.
    pub fn new(flow_id: FlowId, window: u32) -> (s: FlowState)
        ensures
            s@ == FlowModel::fresh(flow_id, window as nat),
    {
        let s = FlowState {
            flow_id,
            window,
            highest_sequence: None,
            expected_sequence: None,
            first_sequence: None,
            last_sequence: None,
            reorder_buffer: Vec::new(),
            gaps: Vec::new(),
            packets_received: 0,
            total_lost: 0,
            min_gap: None,
            max_gap: None,
            total_bytes: 0,
            first_timestamp: None,
            last_timestamp: None,
            min_inter_arrival_us: None,
            max_inter_arrival_us: None,
            total_inter_arrival_us: 0,
            inter_arrival_count: 0,
            protocol_distribution: HashMap::new(),
        };
        proof {
            assert(s@.protocol_distribution =~= Map::<u8, nat>::empty());
            assert(s@.reorder_buffer =~= Seq::<AnalyzedPacket>::empty());
            assert(s@.gaps =~= Seq::<SequenceGap>::empty());
        }
        s
    }

    /// Counts the packet and updates the arrival statistics.
    fn record_arrival(&mut self, p: &AnalyzedPacket)
        requires
            old(self)@.inv(),
            old(self)@.has_room(*p),
        ensures
            final(self)@ == old(self)@.record_arrival(*p),
    {
        broadcast use vstd::std_specs::hash::group_hash_axioms;

        let delta = match self.last_timestamp {
            Some(previous) => p.timestamp.micros_since(&previous),
            None => None,
        };
        self.packets_received = self.packets_received + 1;
        self.total_bytes = self.total_bytes + p.payload_length as u64;
        if let Some(d) = delta {
            self.min_inter_arrival_us = match self.min_inter_arrival_us {
                Some(c) => if d < c {
                    Some(d)
                } else {
                    Some(c)
                },
                None => Some(d),
            };
            self.max_inter_arrival_us = match self.max_inter_arrival_us {
                Some(c) => if d > c {
                    Some(d)
                } else {
                    Some(c)
                },
                None => Some(d),
            };
            self.total_inter_arrival_us = self.total_inter_arrival_us + d;
            self.inter_arrival_count = self.inter_arrival_count + 1;
        }
        if self.first_timestamp.is_none() {
            self.first_timestamp = Some(p.timestamp);
        }
        self.last_timestamp = Some(p.timestamp);
        if let FlowId::GenericL3 { protocol, .. } = self.flow_id {
            let count: u64 = match self.protocol_distribution.get(&protocol) {
                Some(c) => *c,
                None => 0,
            };
            self.protocol_distribution.insert(protocol, count + 1);
        }
        proof {
            assert(self@.protocol_distribution =~= old(self)@.record_arrival(
                *p,
            ).protocol_distribution);
        }
    }

    /// Applies the sequence rules to a packet of a sequenced flow.
    fn track_sequence(&mut self, p: &AnalyzedPacket, now: Timestamp) -> (gap: Option<SequenceGap>)
        requires
            old(self)@.inv(),
            !(old(self)@.flow_id is GenericL3),
            old(self)@.is_forward_jump(*p) ==> old(self)@.total_lost + p.sequence_number.wrapping_sub(
                old(self)@.expected_sequence.unwrap(),
            ) <= u64::MAX,
        ensures
            final(self)@ == old(self)@.track_sequence(*p, now),
            gap == old(self)@.emitted_gap(*p, now),
    {
        let s = p.sequence_number;
        if self.first_sequence.is_none() {
            self.first_sequence = Some(s);
            self.expected_sequence = Some(s.wrapping_add(1));
            self.highest_sequence = Some(s);
            self.last_sequence = Some(s);
            return None;
        }
        let highest = self.highest_sequence.unwrap();
        let expected = self.expected_sequence.unwrap();
        self.last_sequence = Some(s);
        if s == expected {
            self.expected_sequence = Some(s.wrapping_add(1));
            self.highest_sequence = Some(s);
            return None;
        }
        if seq_after(s, highest) {
            let gap = SequenceGap {
                flow_id: self.flow_id,
                expected,
                received: s,
                gap_size: s.wrapping_sub(expected),
                timestamp: now,
            };
            self.expected_sequence = Some(s.wrapping_add(1));
            self.highest_sequence = Some(s);
            store_in_buffer(&mut self.reorder_buffer, *p, self.window);
            self.min_gap = match self.min_gap {
                Some(c) => if gap.gap_size < c {
                    Some(gap.gap_size)
                } else {
                    Some(c)
                },
                None => Some(gap.gap_size),
            };
            self.max_gap = match self.max_gap {
                Some(c) => if gap.gap_size > c {
                    Some(gap.gap_size)
                } else {
                    Some(c)
                },
                None => Some(gap.gap_size),
            };
            self.total_lost = self.total_lost + gap.gap_size as u64;
            self.gaps.push(gap);
            return Some(gap);
        }
        if s != highest && !is_buffered(&self.reorder_buffer, s) {
            store_in_buffer(&mut self.reorder_buffer, *p, self.window);
        }
        None
    }

    /// Handles one packet of this flow at time `now`.
    pub fn update(&mut self, p: &AnalyzedPacket, now: Timestamp) -> (gap: Option<SequenceGap>)
        requires
            old(self)@.inv(),
            old(self)@.has_room(*p),
        ensures
            final(self)@ == old(self)@.step(*p, now),
            gap == old(self)@.emitted_gap(*p, now),
            final(self)@.inv(),
    {
        proof {
            lemma_record_arrival_inv(self@, *p);
        }
        self.record_arrival(p);
        if self.flow_id.is_generic() {
            None
        } else {
            proof {
                lemma_track_sequence_inv(self@, *p, now);
            }
            self.track_sequence(p, now)
        }
    }

    /// Whether the 64-bit counters can take packet `p`.
    pub fn has_room(&self, p: &AnalyzedPacket) -> (ok: bool)
        requires
            self@.inv(),
        ensures
            ok == self@.has_room(*p),
    {
        if self.packets_received == u64::MAX {
            return false;
        }
        if p.payload_length as u64 > u64::MAX - self.total_bytes {
            return false;
        }
        let delta = match self.last_timestamp {
            Some(previous) => p.timestamp.micros_since(&previous),
            None => None,
        };
        if let Some(d) = delta {
            if d > u64::MAX - self.total_inter_arrival_us {
                return false;
            }
        }
        if !self.flow_id.is_generic() && self.first_sequence.is_some() {
            let expected = self.expected_sequence.unwrap();
            let highest = self.highest_sequence.unwrap();
            if p.sequence_number != expected && seq_after(p.sequence_number, highest) {
                let size = p.sequence_number.wrapping_sub(expected);
                if size as u64 > u64::MAX - self.total_lost {
                    return false;
                }
            }
        }
        true
    }

    /// A snapshot of the flow's counters.
    pub fn stats(&self) -> (s: FlowStats)
        requires
            self@.inv(),
        ensures
            describes(s, self@),
    {
        let avg = if self.inter_arrival_count > 0 {
            Some(Interval { micros: self.total_inter_arrival_us / self.inter_arrival_count })
        } else {
            None
        };
        FlowStats {
            flow_id: self.flow_id,
            packets_received: self.packets_received,
            gaps_detected: self.gaps.len() as u64,
            total_lost_packets: self.total_lost,
            first_sequence: self.first_sequence,
            last_sequence: self.last_sequence,
            min_gap: self.min_gap,
            max_gap: self.max_gap,
            total_bytes: self.total_bytes,
            first_timestamp: self.first_timestamp,
            last_timestamp: self.last_timestamp,
            min_inter_arrival: match self.min_inter_arrival_us {
                Some(us) => Some(Interval { micros: us }),
                None => None,
            },
            max_inter_arrival: match self.max_inter_arrival_us {
                Some(us) => Some(Interval { micros: us }),
                None => None,
            },
            avg_inter_arrival: avg,
            protocol_distribution: self.protocol_distribution.clone(),
        }
    }
}


/// Tracks packet sequences for many flows.
///
/// The flows are kept in the order in which they were first seen; a
/// concurrent hash map from flow key to position finds a flow's state.
pub struct FlowTracker {
    flows: Vec<FlowState>,
    index: DashMap<(u8, u128, u128, u64), u64>,
    reorder_window_size: u32,
}

impl View for FlowTracker {
    type V = Seq<FlowModel>;

    /// The states of the tracked flows, in the order the flows were first
    /// seen.
    closed spec fn view(&self) -> Seq<FlowModel> {
        Seq::new(self.flows@.len(), |i: int| self.flows@[i]@)
    }
}

impl FlowTracker {
    /// The bound on each flow's reorder buffer.
    pub closed spec fn window(&self) -> nat {
        self.reorder_window_size as nat
    }

    /// The tracker's own consistency: every flow state keeps its
    /// invariant, and the index finds exactly the flows held.
    pub closed spec fn wf(&self) -> bool {
        &&& forall|i: int|
            0 <= i < self.flows@.len() ==> (#[trigger] self.flows@[i])@.inv()
                && self.flows@[i]@.window == self.reorder_window_size
        &&& forall|i: int|
            0 <= i < self.flows@.len() ==> entries(self.index).contains_key(
                (#[trigger] self.flows@[i])@.flow_id.spec_key(),
            ) && entries(self.index)[self.flows@[i]@.flow_id.spec_key()] == i
        &&& forall|k: (u8, u128, u128, u64)| #[trigger]
            entries(self.index).contains_key(k) ==> entries(self.index)[k] < self.flows@.len()
                && self.flows@[entries(self.index)[k] as int]@.flow_id.spec_key() == k
    }

    /// Whether the counters of the flow of `p` can take `p`.
    pub open spec fn can_accept(&self, p: AnalyzedPacket) -> bool {
        state_for(self@, p.flow_id, self.window()).has_room(p)
    }

    /// A well-formed tracker holds each flow once, and every flow state
    /// keeps the flow invariant.
    pub proof fn lemma_wf(&self)
        requires
            self.wf(),
        ensures
            distinct_flows(self@),
            forall|i: int| 0 <= i < self@.len() ==> (#[trigger] self@[i]).inv(),
            forall|i: int| 0 <= i < self@.len() ==> (#[trigger] self@[i]).window == self.window(),
    {
        assert forall|i: int, j: int|
            0 <= i < self@.len() && 0 <= j < self@.len() && self@[i].flow_id
                == self@[j].flow_id implies i == j by {
            let a = self.flows@[i];
            let b = self.flows@[j];
            assert(entries(self.index)[a@.flow_id.spec_key()] == i);
            assert(entries(self.index)[b@.flow_id.spec_key()] == j);
        }
        assert forall|i: int| 0 <= i < self@.len() implies (#[trigger] self@[i]).inv() by {
            assert(self.flows@[i]@.inv());
        }
        assert forall|i: int| 0 <= i < self@.len() implies (#[trigger] self@[i]).window
            == self.window() by {
            assert(self.flows@[i]@.inv());
        }
    }

    /// A tracker with the default reorder window and no flows.
    pub fn new() -> (t: FlowTracker)
        ensures
            t.wf(),
            t@.len() == 0,
            t.window() == DEFAULT_REORDER_WINDOW,
    {
        Self::with_window_size(DEFAULT_REORDER_WINDOW)
    }

    /// A tracker whose reorder buffers hold up to `window_size` packets.
    pub fn with_window_size(window_size: u32) -> (t: FlowTracker)
        ensures
            t.wf(),
            t@.len() == 0,
            t.window() == window_size,
    {
        FlowTracker { flows: Vec::new(), index: map_new(), reorder_window_size: window_size }
    }

    /// Position of the state of flow `flow_id`, if the flow is tracked.
    fn find(&self, flow_id: &FlowId) -> (slot: Option<usize>)
        requires
            self.wf(),
        ensures
            match slot {
                Some(i) => i < self@.len() && find_flow(self@, *flow_id) == Some(i as int)
                    && self@[i as int].flow_id == *flow_id,
                None => find_flow(self@, *flow_id) is None,
            },
    {
        let found = map_get(&self.index, flow_id.key());
        proof {
            self.lemma_wf();
        }
        let held = self.flows.len();
        match found {
            Some(i) => {
                proof {
                    let k = flow_id.spec_key();
                    assert(entries(self.index).contains_key(k));
                    assert(i < held);
                    FlowId::lemma_key_injective(self.flows@[i as int]@.flow_id, *flow_id);
                    assert(self@[i as int].flow_id == *flow_id);
                    let j = choose|j: int| 0 <= j < self@.len() && self@[j].flow_id == *flow_id;
                    assert(j == i);
                }
                Some(i as usize)
            },
            None => {
                proof {
                    assert forall|j: int| 0 <= j < self@.len() implies self@[j].flow_id
                        != *flow_id by {
                        assert(entries(self.index).contains_key(
                            self.flows@[j]@.flow_id.spec_key(),
                        ));
                    }
                }
                None
            },
        }
    }

    /// Whether `process_packet` may be called with `packet`: the 64-bit
    /// counters of its flow have room for it.
    pub fn has_room_for(&self, packet: &AnalyzedPacket) -> (ok: bool)
        requires
            self.wf(),
        ensures
            ok == self.can_accept(*packet),
    {
        match self.find(&packet.flow_id) {
            Some(i) => self.flows[i].has_room(packet),
            None => {
                let fresh = FlowState::new(packet.flow_id, self.reorder_window_size);
                fresh.has_room(packet)
            },
        }
    }

    /// Handles one packet at time `now`: the state of its flow takes one
    /// step, and the gap that the packet opens, if any, is returned.
    pub fn process_packet_at(&mut self, packet: AnalyzedPacket, now: Timestamp) -> (gap: Option<
        SequenceGap,
    >)
        requires
            old(self).wf(),
            old(self).can_accept(packet),
        ensures
            final(self).wf(),
            final(self).window() == old(self).window(),
            final(self)@ == track(old(self)@, packet, now, old(self).window()),
            gap == state_for(old(self)@, packet.flow_id, old(self).window()).emitted_gap(
                packet,
                now,
            ),
            packet.flow_id is GenericL3 ==> gap is None,
    {
        let ghost before = self@;
        let found = self.find(&packet.flow_id);
        let slot: usize = match found {
            Some(i) => i,
            None => {
                let i = self.flows.len();
                let fresh = FlowState::new(packet.flow_id, self.reorder_window_size);
                proof {
                    crate::analysis::flow_laws::lemma_fresh_inv(
                        packet.flow_id,
                        self.reorder_window_size as nat,
                    );
                }
                self.flows.push(fresh);
                map_insert(&mut self.index, packet.flow_id.key(), i as u64);
                proof {
                    assert forall|j: int| 0 <= j < self.flows@.len() implies entries(
                        self.index,
                    ).contains_key((#[trigger] self.flows@[j])@.flow_id.spec_key()) && entries(
                        self.index,
                    )[self.flows@[j]@.flow_id.spec_key()] == j by {
                        if j < i {
                            assert(self.flows@[j] == old(self).flows@[j]);
                            assert(before[j].flow_id != packet.flow_id);
                            if self.flows@[j]@.flow_id.spec_key() == packet.flow_id.spec_key() {
                                FlowId::lemma_key_injective(
                                    self.flows@[j]@.flow_id,
                                    packet.flow_id,
                                );
                            }
                        }
                    }
                    assert forall|k: (u8, u128, u128, u64)| #[trigger]
                        entries(self.index).contains_key(k) implies entries(self.index)[k]
                        < self.flows@.len() && self.flows@[entries(
                        self.index,
                    )[k] as int]@.flow_id.spec_key() == k by {
                        if k != packet.flow_id.spec_key() {
                            assert(entries(old(self).index).contains_key(k));
                            let e = entries(old(self).index)[k] as int;
                            assert(self.flows@[e] == old(self).flows@[e]);
                        }
                    }
                }
                i
            },
        };
        let ghost staged = self.flows@;
        let ghost target = self.flows@[slot as int]@;
        assert(target == state_for(before, packet.flow_id, old(self).window()));
        let gap = self.flows[slot].update(&packet, now);
        proof {
            assert(self.flows@[slot as int]@ == target.step(packet, now));
            assert(self.flows@[slot as int]@.flow_id == target.flow_id);
            assert(self.flows@[slot as int]@.window == target.window);
            assert forall|j: int| 0 <= j < self.flows@.len() implies (#[trigger] self.flows@[j])@.inv()
                && self.flows@[j]@.window == self.reorder_window_size by {
                if j != slot {
                    assert(self.flows@[j] == staged[j]);
                }
            }
            assert forall|j: int| 0 <= j < self.flows@.len() implies entries(
                self.index,
            ).contains_key((#[trigger] self.flows@[j])@.flow_id.spec_key()) && entries(
                self.index,
            )[self.flows@[j]@.flow_id.spec_key()] == j by {
                if j != slot {
                    assert(self.flows@[j] == staged[j]);
                } else {
                    assert(staged[j]@.flow_id == self.flows@[j]@.flow_id);
                }
            }
            assert forall|k: (u8, u128, u128, u64)| #[trigger]
                entries(self.index).contains_key(k) implies entries(self.index)[k]
                < self.flows@.len() && self.flows@[entries(
                self.index,
            )[k] as int]@.flow_id.spec_key() == k by {
                let e = entries(self.index)[k] as int;
                if e != slot {
                    assert(self.flows@[e] == staged[e]);
                } else {
                    assert(staged[e]@.flow_id == self.flows@[e]@.flow_id);
                }
            }
            let after = track(before, packet, now, old(self).window());
            match found {
                Some(i) => {
                    assert(self@ =~= after) by {
                        assert forall|j: int| 0 <= j < self@.len() implies self@[j] == after[j] by {
                            if j != slot {
                                assert(self.flows@[j] == staged[j]);
                            }
                        }
                    }
                },
                None => {
                    assert(self@ =~= after) by {
                        assert forall|j: int| 0 <= j < self@.len() implies self@[j] == after[j] by {
                            if j != slot {
                                assert(self.flows@[j] == staged[j]);
                                assert(staged[j] == old(self).flows@[j]);
                            }
                        }
                    }
                },
            }
        }
        gap
    }

    /// Handles one packet, reading the wall clock for the time of a gap's
    /// detection. Everything but that time is determined by the packet and
    /// the flow's state.
    pub fn process_packet(&mut self, packet: AnalyzedPacket) -> (gap: Option<SequenceGap>)
        requires
            old(self).wf(),
            old(self).can_accept(packet),
        ensures
            final(self).wf(),
            final(self).window() == old(self).window(),
            exists|now: Timestamp|
                final(self)@ == #[trigger] track(old(self)@, packet, now, old(self).window())
                    && gap == state_for(
                    old(self)@,
                    packet.flow_id,
                    old(self).window(),
                ).emitted_gap(packet, now),
            gap is Some <==> state_for(
                old(self)@,
                packet.flow_id,
                old(self).window(),
            ).is_forward_jump(packet),
            packet.flow_id is GenericL3 ==> gap is None,
    {
        let now = wall_clock_now();
        self.process_packet_at(packet, now)
    }

    /// A snapshot of every flow's counters, in the order the flows were
    /// first seen.
    pub fn get_stats(&self) -> (stats: Vec<FlowStats>)
        requires
            self.wf(),
        ensures
            stats@.len() == self@.len(),
            forall|i: int| 0 <= i < self@.len() ==> describes(#[trigger] stats@[i], self@[i]),
    {
        let mut stats: Vec<FlowStats> = Vec::new();
        let mut i: usize = 0;
        while i < self.flows.len()
            invariant
                self.wf(),
                i <= self.flows@.len(),
                stats@.len() == i,
                forall|j: int| 0 <= j < i ==> describes(#[trigger] stats@[j], self@[j]),
            decreases self.flows@.len() - i,
        {
            let s = self.flows[i].stats();
            stats.push(s);
            i = i + 1;
        }
        stats
    }

    /// Every gap detected so far, flow by flow in the order the flows were
    /// first seen, and within a flow in order of detection.
    pub fn get_gaps(&self) -> (gaps: Vec<SequenceGap>)
        requires
            self.wf(),
        ensures
            gaps@ == all_gaps(self@),
    {
        let mut gaps: Vec<SequenceGap> = Vec::new();
        let mut i: usize = 0;
        assert(self@.take(0) =~= Seq::<FlowModel>::empty());
        while i < self.flows.len()
            invariant
                self.wf(),
                i <= self.flows@.len(),
                gaps@ == all_gaps(self@.take(i as int)),
            decreases self.flows@.len() - i,
        {
            let flow = &self.flows[i];
            let ghost base = gaps@;
            let mut j: usize = 0;
            while j < flow.gaps.len()
                invariant
                    j <= flow.gaps@.len(),
                    gaps@ == base + flow.gaps@.take(j as int),
                decreases flow.gaps@.len() - j,
            {
                gaps.push(flow.gaps[j]);
                assert(flow.gaps@.take(j + 1) =~= flow.gaps@.take(j as int).push(flow.gaps@[j as int]));
                j = j + 1;
            }
            proof {
                assert(flow.gaps@.take(j as int) =~= flow.gaps@);
                assert(self@.take(i + 1).drop_last() =~= self@.take(i as int));
                assert(self@.take(i + 1).last() == self@[i as int]);
            }
            i = i + 1;
        }
        assert(self@.take(i as int) =~= self@);
        gaps
    }
}


impl Default for FlowTracker {
    fn default() -> (t: FlowTracker)
        ensures
            t.wf(),
            t@.len() == 0,
            t.window() == DEFAULT_REORDER_WINDOW,
    {
        FlowTracker::new()
    }
}

} // verus!
