//! Analysis of a capture with one parser: every packet is parsed and
//! tracked, and the result is a report.

use crate::analysis::flow::{describes, state_for, track, FlowModel, FlowTracker};
use crate::analysis::pipeline::{analyzed, spec_analyzed};
use crate::error::{AnalysisError, ParseError};
use crate::protocol::parser::SequenceParser;
use crate::types::{AnalysisReport, RawPacket, SequenceGap, SequenceInfo, Timestamp};
use vstd::prelude::*;
use vstd::string::StringExecFns;

verus! {

/// The flows after the packets were parsed by `parser` and tracked, the
/// `i`-th at `times[i]`; packets that are not of the parser's protocol
/// leave the flows as they are.
pub open spec fn flows_after<P: SequenceParser>(
    parser: P,
    flows: Seq<FlowModel>,
    window: nat,
    packets: Seq<RawPacket>,
    times: Seq<Timestamp>,
) -> Seq<FlowModel>
    decreases packets.len(),
{
    if packets.len() == 0 {
        flows
    } else {
        let before = flows_after(parser, flows, window, packets.drop_last(), times.drop_last());
        match parser.parsed(packets.last().data@) {
            Ok(Some(info)) => track(
                before,
                spec_analyzed(info, packets.last().timestamp),
                times.last(),
                window,
            ),
            _ => before,
        }
    }
}

/// The gaps that the packets open, in the order of the packets.
pub open spec fn gaps_of<P: SequenceParser>(
    parser: P,
    flows: Seq<FlowModel>,
    window: nat,
    packets: Seq<RawPacket>,
    times: Seq<Timestamp>,
) -> Seq<SequenceGap>
    decreases packets.len(),
{
    if packets.len() == 0 {
        Seq::empty()
    } else {
        let before = flows_after(parser, flows, window, packets.drop_last(), times.drop_last());
        let earlier = gaps_of(parser, flows, window, packets.drop_last(), times.drop_last());
        match parser.parsed(packets.last().data@) {
            Ok(Some(info)) => {
                let packet = spec_analyzed(info, packets.last().timestamp);
                match state_for(before, info.flow_id, window).emitted_gap(packet, times.last()) {
                    Some(gap) => earlier.push(gap),
                    None => earlier,
                }
            },
            _ => earlier,
        }
    }
}

/// Whether the flow counters have room for packet `i` after the packets
/// before it.
pub open spec fn room_at<P: SequenceParser>(
    parser: P,
    flows: Seq<FlowModel>,
    window: nat,
    packets: Seq<RawPacket>,
    times: Seq<Timestamp>,
    i: int,
) -> bool {
    match parser.parsed(packets[i].data@) {
        Ok(Some(info)) => state_for(
            flows_after(parser, flows, window, packets.take(i), times.take(i)),
            info.flow_id,
            window,
        ).has_room(spec_analyzed(info, packets[i].timestamp)),
        _ => true,
    }
}

/// Whether no packet before position `upto` fails to parse.
pub open spec fn parses_upto<P: SequenceParser>(parser: P, packets: Seq<RawPacket>, upto: int) -> bool {
    forall|k: int| 0 <= k < upto ==> (#[trigger] parser.parsed(packets[k].data@)) is Ok
}

/// Analyzer for one protocol.
pub struct PacketAnalyzer<P: SequenceParser> {
    parser: P,
    flow_tracker: FlowTracker,
}

impl<P: SequenceParser> PacketAnalyzer<P> {
    /// The tracked flows.
    pub closed spec fn flows(&self) -> Seq<FlowModel> {
        self.flow_tracker@
    }

    /// The parser.
    pub closed spec fn parser(&self) -> P {
        self.parser
    }

    /// The reorder window of the tracker.
    pub closed spec fn window(&self) -> nat {
        self.flow_tracker.window()
    }

    /// The analyzer's consistency.
    pub closed spec fn wf(&self) -> bool {
        self.flow_tracker.wf()
    }

    /// An analyzer that has seen no packet.
    pub fn new(parser: P) -> (a: PacketAnalyzer<P>)
        ensures
            a.wf(),
            a.flows().len() == 0,
            a.parser() == parser,
    {
        PacketAnalyzer { parser, flow_tracker: FlowTracker::new() }
    }

    /// Parses and tracks every packet and reports what was found.
    ///
    /// The first packet that the parser rejects with an error ends the
    /// analysis with that error; the packets before it stay tracked.
    pub fn analyze(&mut self, packets: &Vec<RawPacket>) -> (r: Result<AnalysisReport, AnalysisError>)
        requires
            old(self).wf(),
            forall|times: Seq<Timestamp>, i: int|
                times.len() == packets@.len() && 0 <= i < packets@.len() ==> #[trigger] room_at(
                    old(self).parser(),
                    old(self).flows(),
                    old(self).window(),
                    packets@,
                    times,
                    i,
                ),
        ensures
            final(self).wf(),
            final(self).parser() == old(self).parser(),
            final(self).window() == old(self).window(),
            match r {
                Ok(report) => {
                    &&& parses_upto(old(self).parser(), packets@, packets@.len() as int)
                    &&& report.total_packets == packets@.len()
                    &&& report.protocol@ == old(self).parser().name()
                    &&& report.flow_stats@.len() == final(self).flows().len()
                    &&& forall|i: int|
                        0 <= i < report.flow_stats@.len() ==> describes(
                            #[trigger] report.flow_stats@[i],
                            final(self).flows()[i],
                        )
                    &&& exists|times: Seq<Timestamp>|
                        times.len() == packets@.len() && final(self).flows() == #[trigger] flows_after(
                            old(self).parser(),
                            old(self).flows(),
                            old(self).window(),
                            packets@,
                            times,
                        ) && report.gaps@ == gaps_of(
                            old(self).parser(),
                            old(self).flows(),
                            old(self).window(),
                            packets@,
                            times,
                        )
                },
                Err(AnalysisError::Parse(e)) => exists|k: int, times: Seq<Timestamp>|
                    0 <= k < packets@.len() && parses_upto(old(self).parser(), packets@, k)
                        && (#[trigger] old(self).parser().parsed(packets@[k].data@))
                        == Err::<Option<SequenceInfo>, ParseError>(e) && times.len() == k
                        && final(self).flows() == #[trigger] flows_after(
                        old(self).parser(),
                        old(self).flows(),
                        old(self).window(),
                        packets@.take(k),
                        times,
                    ),
                Err(_) => false,
            },
    {
        let mut total_packets: u64 = 0;
        let mut gaps: Vec<SequenceGap> = Vec::new();
        let ghost mut times: Seq<Timestamp> = Seq::empty();
        let ghost start = self.flow_tracker@;
        let ghost window = self.flow_tracker.window();
        let mut i: usize = 0;
        assert(packets@.take(0) =~= Seq::<RawPacket>::empty());
        assert(self.parser == old(self).parser() && start == old(self).flows() && window == old(
            self,
        ).window());
        while i < packets.len()
            invariant
                i <= packets@.len(),
                total_packets == i,
                self.flow_tracker.wf(),
                self.flow_tracker.window() == window,
                self.parser == old(self).parser(),
                start == old(self).flows(),
                window == old(self).window(),
                times.len() == i,
                parses_upto(self.parser, packets@, i as int),
                self.flow_tracker@ == flows_after(self.parser, start, window, packets@.take(i as int), times),
                gaps@ == gaps_of(self.parser, start, window, packets@.take(i as int), times),
                forall|all: Seq<Timestamp>, k: int|
                    all.len() == packets@.len() && 0 <= k < packets@.len() ==> #[trigger] room_at(
                        self.parser,
                        start,
                        window,
                        packets@,
                        all,
                        k,
                    ),
            decreases packets@.len() - i,
        {
            let raw = &packets[i];
            total_packets = total_packets + 1;
            let ghost prefix = packets@.take(i as int);
            let ghost next = packets@.take(i + 1);
            proof {
                assert(next.drop_last() =~= prefix);
                assert(next.last() == packets@[i as int]);
            }
            match self.parser.parse_sequence(raw.data.as_slice()) {
                Err(e) => {
                    assert(parses_upto(old(self).parser(), packets@, i as int));
                    assert(old(self).parser().parsed(packets@[i as int].data@) == Err::<
                        Option<SequenceInfo>,
                        ParseError,
                    >(e));
                    assert(self.flows() == flows_after(
                        old(self).parser(),
                        old(self).flows(),
                        old(self).window(),
                        packets@.take(i as int),
                        times,
                    ));
                    return Err(AnalysisError::Parse(e));
                },
                Ok(None) => {
                    proof {
                        let filler = Timestamp { nanos: 0 };
                        let longer = times.push(filler);
                        assert(longer.drop_last() =~= times);
                        times = longer;
                    }
                },
                Ok(Some(info)) => {
                    let packet = analyzed(&info, raw.timestamp);
                    proof {
                        // the room that is asked for every list of times holds for
                        // the list at hand, filled up to full length
                        let rest = Seq::new(
                            (packets@.len() - i) as nat,
                            |k: int| Timestamp { nanos: 0 },
                        );
                        let all = times + rest;
                        assert(all.take(i as int) =~= times);
                        assert(room_at(self.parser, start, window, packets@, all, i as int));
                    }
                    let ghost before = self.flow_tracker@;
                    let gap = self.flow_tracker.process_packet(packet);
                    proof {
                        let now = choose|now: Timestamp|
                            self.flow_tracker@ == #[trigger] track(before, packet, now, window)
                                && gap == state_for(before, packet.flow_id, window).emitted_gap(
                                packet,
                                now,
                            );
                        let longer = times.push(now);
                        assert(longer.drop_last() =~= times);
                        assert(longer.last() == now);
                        times = longer;
                    }
                    if let Some(g) = gap {
                        gaps.push(g);
                    }
                },
            }
            i = i + 1;
        }
        proof {
            assert(packets@.take(i as int) =~= packets@);
            assert(self.flows() == flows_after(
                old(self).parser(),
                old(self).flows(),
                old(self).window(),
                packets@,
                times,
            ));
        }
        let flow_stats = self.flow_tracker.get_stats();
        let protocol = String::from_str(self.parser.protocol_name());
        Ok(AnalysisReport { total_packets, protocol, gaps, flow_stats })
    }
}

} // verus!
