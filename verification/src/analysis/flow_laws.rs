//! Facts about the flow state machine: its invariant is kept by every
//! step, and what follows from that for gaps and counters.

use crate::analysis::flow::{
    buffer_sorted, buffer_store, distinct_flows, find_flow, insert_sorted, max_gap_size,
    min_gap_size, sum_gap_sizes, track, FlowModel,
};
use crate::types::{AnalyzedPacket, SequenceGap, Timestamp};
use vstd::prelude::*;

verus! {

/// Adding a gap to a list adds its size to the sum and folds it into the
/// minimum and maximum.
pub proof fn lemma_gap_pushed(gaps: Seq<SequenceGap>, g: SequenceGap)
    ensures
        sum_gap_sizes(gaps.push(g)) == sum_gap_sizes(gaps) + g.gap_size,
        min_gap_size(gaps.push(g)) == crate::analysis::flow::lower_of(
            min_gap_size(gaps),
            g.gap_size,
        ),
        max_gap_size(gaps.push(g)) == crate::analysis::flow::upper_of(
            max_gap_size(gaps),
            g.gap_size,
        ),
{
    assert(gaps.push(g).drop_last() =~= gaps);
}

/// Insertion keeps every sequence number below a bound that held before.
pub proof fn lemma_insert_sorted_bound(buf: Seq<AnalyzedPacket>, p: AnalyzedPacket, bound: u32)
    requires
        forall|i: int| 0 <= i < buf.len() ==> buf[i].sequence_number < bound,
        p.sequence_number < bound,
    ensures
        forall|i: int|
            0 <= i < insert_sorted(buf, p).len() ==> (#[trigger] insert_sorted(
                buf,
                p,
            )[i]).sequence_number < bound,
    decreases buf.len(),
{
    if buf.len() == 0 {
    } else if buf.last().sequence_number < p.sequence_number {
    } else if buf.last().sequence_number == p.sequence_number {
    } else {
        lemma_insert_sorted_bound(buf.drop_last(), p, bound);
    }
}

/// Insertion keeps the buffer ordered and grows it by at most one entry.
pub proof fn lemma_insert_sorted(buf: Seq<AnalyzedPacket>, p: AnalyzedPacket)
    requires
        buffer_sorted(buf),
    ensures
        buffer_sorted(insert_sorted(buf, p)),
        1 <= insert_sorted(buf, p).len() <= buf.len() + 1,
    decreases buf.len(),
{
    if buf.len() == 0 {
    } else if buf.last().sequence_number < p.sequence_number {
    } else if buf.last().sequence_number == p.sequence_number {
    } else {
        let rest = buf.drop_last();
        lemma_insert_sorted(rest, p);
        lemma_insert_sorted_bound(rest, p, buf.last().sequence_number);
    }
}

/// Storing a packet keeps the buffer ordered and within its bound.
pub proof fn lemma_buffer_store(buf: Seq<AnalyzedPacket>, p: AnalyzedPacket, window: nat)
    requires
        buffer_sorted(buf),
        buf.len() <= window,
    ensures
        buffer_sorted(buffer_store(buf, p, window)),
        buffer_store(buf, p, window).len() <= window,
{
    lemma_insert_sorted(buf, p);
}

/// A flow that has seen no packet satisfies the invariant.
pub proof fn lemma_fresh_inv(flow_id: crate::types::FlowId, window: nat)
    ensures
        FlowModel::fresh(flow_id, window).inv(),
{
}

/// The statistics update keeps the invariant, and leaves room for one gap.
pub proof fn lemma_record_arrival_inv(m: FlowModel, p: AnalyzedPacket)
    requires
        m.inv(),
    ensures
        m.record_arrival(p).inv(),
        m.record_arrival(p).gaps.len() < m.record_arrival(p).packets_received,
{
    let r = m.record_arrival(p);
    match m.flow_id {
        crate::types::FlowId::GenericL3 { protocol, .. } => {
            if m.packets_received == 0 {
                assert(r.protocol_distribution =~= Map::<u8, nat>::empty().insert(protocol, 1));
            } else {
                assert(r.protocol_distribution =~= Map::<u8, nat>::empty().insert(
                    protocol,
                    m.packets_received + 1,
                ));
            }
        },
        _ => {},
    }
}

/// The sequence update keeps the invariant.
pub proof fn lemma_track_sequence_inv(m: FlowModel, p: AnalyzedPacket, now: Timestamp)
    requires
        m.inv(),
        !(m.flow_id is GenericL3),
        m.gaps.len() < m.packets_received,
    ensures
        m.track_sequence(p, now).inv(),
{
    let r = m.track_sequence(p, now);
    lemma_buffer_store(m.reorder_buffer, p, m.window);
    if m.is_forward_jump(p) {
        lemma_gap_pushed(m.gaps, m.emitted_gap(p, now).unwrap());
    }
}

/// Every step on a packet of the flow keeps the invariant.
pub proof fn lemma_step_inv(m: FlowModel, p: AnalyzedPacket, now: Timestamp)
    requires
        m.inv(),
    ensures
        m.step(p, now).inv(),
{
    lemma_record_arrival_inv(m, p);
    if !(m.flow_id is GenericL3) {
        lemma_track_sequence_inv(m.record_arrival(p), p, now);
    }
}


/// The state of a flow after a run of packets, the `i`-th handled at
/// `times[i]`.
pub open spec fn feed(m: FlowModel, packets: Seq<AnalyzedPacket>, times: Seq<Timestamp>) -> FlowModel
    decreases packets.len(),
{
    if packets.len() == 0 {
        m
    } else {
        feed(m, packets.drop_last(), times.drop_last()).step(packets.last(), times.last())
    }
}

/// Any run of packets keeps the flow invariant and counts every packet.
pub proof fn lemma_feed_inv(m: FlowModel, packets: Seq<AnalyzedPacket>, times: Seq<Timestamp>)
    requires
        m.inv(),
    ensures
        feed(m, packets, times).inv(),
        feed(m, packets, times).packets_received == m.packets_received + packets.len(),
        feed(m, packets, times).flow_id == m.flow_id,
        feed(m, packets, times).window == m.window,
    decreases packets.len(),
{
    if packets.len() > 0 {
        lemma_feed_inv(m, packets.drop_last(), times.drop_last());
        lemma_step_inv(
            feed(m, packets.drop_last(), times.drop_last()),
            packets.last(),
            times.last(),
        );
    }
}

/// Gap accounting: after any run of packets, the lost-packet total of a
/// flow is the sum of the sizes of its recorded gaps, the gap count is
/// their number, and the smallest and largest gap are those of the list.
pub proof fn law_gap_accounting(m: FlowModel, packets: Seq<AnalyzedPacket>, times: Seq<Timestamp>)
    requires
        m.inv(),
    ensures
        feed(m, packets, times).total_lost == sum_gap_sizes(feed(m, packets, times).gaps),
        feed(m, packets, times).min_gap == min_gap_size(feed(m, packets, times).gaps),
        feed(m, packets, times).max_gap == max_gap_size(feed(m, packets, times).gaps),
        feed(m, packets, times).gaps.len() <= feed(m, packets, times).packets_received,
{
    lemma_feed_inv(m, packets, times);
}

/// The sequence number `i` places after `first` on the 32-bit circle.
pub open spec fn nth_sequence(first: u32, i: nat) -> u32 {
    ((first as nat + i) % 0x1_0000_0000) as u32
}

/// In-order delivery: a new sequenced flow that receives `n` consecutive
/// sequence numbers, starting anywhere and wrapping at 2^32, records no
/// gap, counts `n` packets and loses none.
pub proof fn law_in_order_run(
    flow_id: crate::types::FlowId,
    window: nat,
    first: u32,
    packets: Seq<AnalyzedPacket>,
    times: Seq<Timestamp>,
)
    requires
        !(flow_id is GenericL3),
        times.len() == packets.len(),
        forall|i: int|
            0 <= i < packets.len() ==> (#[trigger] packets[i]).sequence_number == nth_sequence(
                first,
                i as nat,
            ),
    ensures
        feed(FlowModel::fresh(flow_id, window), packets, times).gaps.len() == 0,
        feed(FlowModel::fresh(flow_id, window), packets, times).packets_received == packets.len(),
        feed(FlowModel::fresh(flow_id, window), packets, times).total_lost == 0,
        packets.len() > 0 ==> feed(
            FlowModel::fresh(flow_id, window),
            packets,
            times,
        ).first_sequence == Some(first),
        packets.len() > 0 ==> feed(
            FlowModel::fresh(flow_id, window),
            packets,
            times,
        ).last_sequence == Some(nth_sequence(first, (packets.len() - 1) as nat)),
        packets.len() > 0 ==> feed(
            FlowModel::fresh(flow_id, window),
            packets,
            times,
        ).expected_sequence == Some(nth_sequence(first, packets.len())),
    decreases packets.len(),
{
    let m0 = FlowModel::fresh(flow_id, window);
    lemma_fresh_inv(flow_id, window);
    lemma_feed_inv(m0, packets, times);
    if packets.len() > 0 {
        let n = (packets.len() - 1) as nat;
        let head = packets.drop_last();
        law_in_order_run(flow_id, window, first, head, times.drop_last());
        lemma_feed_inv(m0, head, times.drop_last());
        let before = feed(m0, head, times.drop_last());
        assert(packets.last() == packets[n as int]);
        assert(nth_sequence(first, n + 1) == nth_sequence(first, n).wrapping_add(1));
        if n == 0 {
            assert(head =~= Seq::<AnalyzedPacket>::empty());
            assert(nth_sequence(first, 0) == first);
        }
    }
}

/// Whether `s` is one of the `size` sequence numbers starting at `from`.
pub open spec fn in_hole(s: u32, from: u32, size: u32) -> bool {
    s.wrapping_sub(from) < size
}

/// One gap per hole, first part: a packet that skips `size` sequence
/// numbers beyond the expected one opens exactly one gap, of that size,
/// from the expected number to the received one.
pub proof fn law_jump_opens_one_gap(m: FlowModel, p: AnalyzedPacket, now: Timestamp, size: u32)
    requires
        m.inv(),
        !(m.flow_id is GenericL3),
        m.first_sequence is Some,
        1 <= size < 0x7fff_ffff,
        p.sequence_number == m.expected_sequence.unwrap().wrapping_add(size),
    ensures
        m.emitted_gap(p, now) == Some(
            SequenceGap {
                flow_id: m.flow_id,
                expected: m.expected_sequence.unwrap(),
                received: p.sequence_number,
                gap_size: size,
                timestamp: now,
            },
        ),
        m.step(p, now).gaps == m.gaps.push(m.emitted_gap(p, now).unwrap()),
        m.step(p, now).total_lost == m.total_lost + size,
        m.step(p, now).highest_sequence == Some(p.sequence_number),
        m.step(p, now).expected_sequence == Some(p.sequence_number.wrapping_add(1)),
{
    let counted = m.record_arrival(p);
    assert(counted.is_forward_jump(p) == m.is_forward_jump(p));
    assert(counted.emitted_gap(p, now) == m.emitted_gap(p, now));
}

/// One gap per hole, second part: once a packet `received` has opened a gap
/// of `size` numbers, later arrivals of the numbers inside the hole, in any
/// order and any number of times, open no further gap.
pub proof fn law_late_arrivals_open_no_gap(
    m: FlowModel,
    received: u32,
    size: u32,
    late: Seq<AnalyzedPacket>,
    times: Seq<Timestamp>,
)
    requires
        m.inv(),
        !(m.flow_id is GenericL3),
        m.highest_sequence == Some(received),
        1 <= size < 0x7fff_ffff,
        times.len() == late.len(),
        forall|i: int|
            0 <= i < late.len() ==> in_hole(
                (#[trigger] late[i]).sequence_number,
                received.wrapping_sub(size),
                size,
            ),
    ensures
        feed(m, late, times).gaps == m.gaps,
        feed(m, late, times).total_lost == m.total_lost,
        feed(m, late, times).highest_sequence == Some(received),
        forall|i: int|
            0 <= i < late.len() ==> (#[trigger] feed(m, late.take(i), times.take(i))).emitted_gap(
                late[i],
                times[i],
            ) is None,
    decreases late.len(),
{
    if late.len() > 0 {
        let head = late.drop_last();
        let head_times = times.drop_last();
        law_late_arrivals_open_no_gap(m, received, size, head, head_times);
        lemma_feed_inv(m, head, head_times);
        let before = feed(m, head, head_times);
        let q = late.last();
        assert(q == late[late.len() - 1]);
        let counted = before.record_arrival(q);
        assert(!counted.is_forward_jump(q));
        assert(!before.is_forward_jump(q));
        assert forall|i: int| 0 <= i < late.len() implies (#[trigger] feed(
            m,
            late.take(i),
            times.take(i),
        )).emitted_gap(late[i], times[i]) is None by {
            if i < late.len() - 1 {
                assert(late.take(i) =~= head.take(i));
                assert(times.take(i) =~= head_times.take(i));
                assert(late[i] == head[i]);
                assert(times[i] == head_times[i]);
            } else {
                assert(late.take(i) =~= head);
                assert(times.take(i) =~= head_times);
            }
        }
    } else {
        assert forall|i: int| 0 <= i < late.len() implies (#[trigger] feed(
            m,
            late.take(i),
            times.take(i),
        )).emitted_gap(late[i], times[i]) is None by {}
    }
}

/// Suppression for 5-tuple flows: whatever packets such a flow receives,
/// it never opens a gap and never holds a sequence position.
pub proof fn law_generic_flow_has_no_gaps(
    m: FlowModel,
    packets: Seq<AnalyzedPacket>,
    times: Seq<Timestamp>,
)
    requires
        m.inv(),
        m.flow_id is GenericL3,
    ensures
        feed(m, packets, times).gaps.len() == 0,
        feed(m, packets, times).total_lost == 0,
        feed(m, packets, times).first_sequence is None,
        forall|p: AnalyzedPacket, now: Timestamp|
            (#[trigger] feed(m, packets, times).emitted_gap(p, now)) is None,
{
    lemma_feed_inv(m, packets, times);
}

/// Flows are independent: handling a packet changes the state of its own
/// flow only, and adds a flow exactly when the packet's flow is new.
pub proof fn law_other_flows_untouched(
    flows: Seq<FlowModel>,
    p: AnalyzedPacket,
    now: Timestamp,
    window: nat,
)
    requires
        distinct_flows(flows),
    ensures
        distinct_flows(track(flows, p, now, window)),
        track(flows, p, now, window).len() == flows.len() + (if find_flow(flows, p.flow_id)
            is None {
            1int
        } else {
            0int
        }),
        forall|j: int|
            0 <= j < flows.len() ==> (#[trigger] track(flows, p, now, window)[j]).flow_id
                == flows[j].flow_id,
        forall|j: int|
            0 <= j < flows.len() && flows[j].flow_id != p.flow_id ==> #[trigger] track(
                flows,
                p,
                now,
                window,
            )[j] == flows[j],
{
    let after = track(flows, p, now, window);
    match find_flow(flows, p.flow_id) {
        Some(i) => {
            assert(flows[i].step(p, now).flow_id == flows[i].flow_id);
        },
        None => {
            assert(FlowModel::fresh(p.flow_id, window).step(p, now).flow_id == p.flow_id);
        },
    }
}

} // verus!
