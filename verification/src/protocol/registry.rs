//! Protocol detection in three tiers: an EtherType fast path, a per-flow
//! cache of the parser that worked before, and a scan over all parsers in
//! priority order.
//!
//! `RegistryModel::detect` states what one call does to the cache and the
//! counters and what it returns; `ProtocolRegistry::detect_and_parse` is
//! proved to do that.

use crate::error::ParseError;
use crate::flow_map::{entries, map_clear, map_get, map_insert, map_len, map_new, map_remove};
use crate::protocol::generic_l3::{generic_l3_parsed, GenericL3Parser};
use crate::protocol::ipsec::{ipsec_parsed, IPsecParser};
use crate::protocol::ipv4::{
    ip_header_end, ipv4_at, spec_ip_header_end, spec_ipv4_at, IP_DESTINATION_OFFSET,
    IP_PROTOCOL_OFFSET, IP_SOURCE_OFFSET,
};
use crate::protocol::macsec::{macsec_parsed, MACsecParser};
use crate::protocol::parser::SequenceParser;
use crate::text::same_text;
use crate::types::{FlowId, FlowKey, SequenceInfo};
use crate::wire::{be_u16, be_u32, spec_be_u16, spec_be_u32};
use dashmap::DashMap;
use vstd::prelude::*;

verus! {

/// EtherType of MACsec.
pub const ETHERTYPE_MACSEC: u16 = 0x88E5;

/// EtherType of IPv4.
pub const ETHERTYPE_IPV4: u16 = 0x0800;

/// Priority of the MACsec parser.
pub const PRIORITY_MACSEC: u8 = 30;

/// Priority of the IPsec parser.
pub const PRIORITY_IPSEC: u8 = 20;

/// Priority of the TCP/UDP parser.
pub const PRIORITY_GENERIC_L3: u8 = 10;

/// The built-in parsers.
#[derive(Debug, Clone, Copy, PartialEq, Eq, Structural)]
pub enum ParserKind {
    MACsec,
    IPsec,
    GenericL3,
}

impl ParserKind {
    /// The parser that a user names: `macsec`, `ipsec` or `generic`.
    pub open spec fn spec_from_name(name: Seq<char>) -> Option<ParserKind> {
        if name == "macsec"@ {
            Some(ParserKind::MACsec)
        } else if name == "ipsec"@ {
            Some(ParserKind::IPsec)
        } else if name == "generic"@ {
            Some(ParserKind::GenericL3)
        } else {
            None
        }
    }

    /// The parser that a user names, if the name is one of the three.
    pub fn from_name(name: &str) -> (kind: Option<ParserKind>)
        ensures
            kind == Self::spec_from_name(name@),
    {
        if same_text(name, "macsec") {
            Some(ParserKind::MACsec)
        } else if same_text(name, "ipsec") {
            Some(ParserKind::IPsec)
        } else if same_text(name, "generic") {
            Some(ParserKind::GenericL3)
        } else {
            None
        }
    }
}

/// A parser with the priority at which it is tried.
#[derive(Debug, Clone, Copy, PartialEq, Eq, Structural)]
pub struct ParserEntry {
    pub kind: ParserKind,
    pub priority: u8,
}

/// Counters of protocol detection.
#[derive(Clone, Debug)]
pub struct RegistryStats {
    pub cache_hits: u64,
    pub cache_misses: u64,
    pub ethertype_fast_path: u64,
    pub unknown_protocol: u64,
    pub cache_size: usize,
}

/// What the parser of the given kind yields on a frame.
pub open spec fn parse_by(kind: ParserKind, data: Seq<u8>) -> Result<
    Option<SequenceInfo>,
    ParseError,
> {
    match kind {
        ParserKind::MACsec => macsec_parsed(data),
        ParserKind::IPsec => ipsec_parsed(data),
        ParserKind::GenericL3 => generic_l3_parsed(data),
    }
}

/// Whether a parser's result says that the frame is not of its protocol.
pub open spec fn declined(r: Result<Option<SequenceInfo>, ParseError>) -> bool {
    r matches Ok(None)
}

/// The EtherType of a frame of at least 14 bytes.
pub open spec fn spec_ethertype(data: Seq<u8>) -> u16 {
    spec_be_u16(data, 12)
}

/// The flow identifier that the IPv4 header and the first four bytes
/// behind it suggest, without any further validation.
pub open spec fn provisional_flow_id(data: Seq<u8>) -> Option<FlowId> {
    let next = spec_ip_header_end(data);
    if data.len() < 42 || data.len() < next + 4 {
        None
    } else if data[23] == 50 {
        Some(FlowId::IPsec { spi: spec_be_u32(data, next), dst_ip: spec_ipv4_at(data, 30) })
    } else if data[23] == 6 || data[23] == 17 {
        Some(
            FlowId::GenericL3 {
                src_ip: spec_ipv4_at(data, 26),
                dst_ip: spec_ipv4_at(data, 30),
                src_port: spec_be_u16(data, next),
                dst_port: spec_be_u16(data, next + 2),
                protocol: data[23],
            },
        )
    } else {
        None
    }
}

/// Position of the first parser at or after `from` that does not decline
/// the frame.
pub open spec fn first_match(parsers: Seq<ParserEntry>, data: Seq<u8>, from: int) -> Option<int>
    decreases parsers.len() - from,
{
    if from < 0 || from >= parsers.len() {
        None
    } else if !declined(parse_by(parsers[from].kind, data)) {
        Some(from)
    } else {
        first_match(parsers, data, from + 1)
    }
}

/// Whether the parsers stand in order of descending priority.
pub open spec fn by_priority(parsers: Seq<ParserEntry>) -> bool {
    forall|i: int, j: int| 0 <= i < j < parsers.len() ==> parsers[i].priority >= parsers[j].priority
}

/// The parsers of a new registry.
pub open spec fn built_in_parsers() -> Seq<ParserEntry> {
    seq![
        ParserEntry { kind: ParserKind::MACsec, priority: 30 },
        ParserEntry { kind: ParserKind::IPsec, priority: 20 },
        ParserEntry { kind: ParserKind::GenericL3, priority: 10 },
    ]
}

/// State of a registry: the parsers, the flow cache (flow key to parser
/// position) and the four counters, which wrap at 2^64.
pub struct RegistryModel {
    pub parsers: Seq<ParserEntry>,
    pub cache: Map<FlowKey, u64>,
    pub cache_hits: u64,
    pub cache_misses: u64,
    pub ethertype_fast_path: u64,
    pub unknown_protocol: u64,
}

impl RegistryModel {
    /// What holds of every registry: the parsers stand by priority and
    /// can be numbered in 64 bits, and the cache is finite and names
    /// parsers that exist.
    pub open spec fn inv(self) -> bool {
        &&& by_priority(self.parsers)
        &&& self.parsers.len() <= u64::MAX
        &&& self.cache.dom().finite()
        &&& forall|k: FlowKey| #[trigger]
            self.cache.contains_key(k) ==> self.cache[k] < self.parsers.len()
    }

    /// Tier 3: count a miss, try the parsers in order and remember the
    /// one that parsed the frame.
    pub open spec fn full_detection(self, data: Seq<u8>) -> (
        RegistryModel,
        Result<Option<SequenceInfo>, ParseError>,
    ) {
        let counted = RegistryModel { cache_misses: self.cache_misses.wrapping_add(1), ..self };
        match first_match(self.parsers, data, 0) {
            Some(i) => match parse_by(self.parsers[i].kind, data) {
                Ok(Some(info)) => (
                    RegistryModel {
                        cache: counted.cache.insert(info.flow_id.spec_key(), i as u64),
                        ..counted
                    },
                    Ok(Some(info)),
                ),
                other => (counted, other),
            },
            None => (
                RegistryModel {
                    unknown_protocol: counted.unknown_protocol.wrapping_add(1),
                    ..counted
                },
                Ok(None),
            ),
        }
    }

    /// One call of detection: the registry afterwards, and the result.
    pub open spec fn detect(self, data: Seq<u8>) -> (
        RegistryModel,
        Result<Option<SequenceInfo>, ParseError>,
    ) {
        if data.len() < 14 {
            (self, Ok(None))
        } else if spec_ethertype(data) == 0x88E5 {
            (
                RegistryModel {
                    ethertype_fast_path: self.ethertype_fast_path.wrapping_add(1),
                    ..self
                },
                macsec_parsed(data),
            )
        } else if spec_ethertype(data) != 0x0800 {
            (
                RegistryModel { unknown_protocol: self.unknown_protocol.wrapping_add(1), ..self },
                Ok(None),
            )
        } else {
            match provisional_flow_id(data) {
                Some(flow_id) => if self.cache.contains_key(flow_id.spec_key()) {
                    let cached = self.cache[flow_id.spec_key()] as int;
                    match parse_by(self.parsers[cached].kind, data) {
                        Ok(Some(info)) => (
                            RegistryModel { cache_hits: self.cache_hits.wrapping_add(1), ..self },
                            Ok(Some(info)),
                        ),
                        Ok(None) => RegistryModel {
                            cache: self.cache.remove(flow_id.spec_key()),
                            ..self
                        }.full_detection(data),
                        Err(e) => (self, Err(e)),
                    }
                } else {
                    self.full_detection(data)
                },
                None => self.full_detection(data),
            }
        }
    }
}

/// Runs the parser of the given kind.
pub fn parse_with(kind: ParserKind, data: &[u8]) -> (r: Result<Option<SequenceInfo>, ParseError>)
    ensures
        r == parse_by(kind, data@),
{
    match kind {
        ParserKind::MACsec => MACsecParser.parse_sequence(data),
        ParserKind::IPsec => IPsecParser.parse_sequence(data),
        ParserKind::GenericL3 => GenericL3Parser.parse_sequence(data),
    }
}

/// Derives the provisional flow identifier of an IPv4 frame.
pub fn extract_provisional_flow_id(data: &[u8]) -> (flow_id: Option<FlowId>)
    ensures
        flow_id == provisional_flow_id(data@),
{
    if data.len() < 42 {
        return None;
    }
    let ip_protocol = data[IP_PROTOCOL_OFFSET];
    let next = ip_header_end(data);
    if data.len() < next + 4 {
        return None;
    }
    if ip_protocol == 50 {
        Some(FlowId::IPsec { spi: be_u32(data, next), dst_ip: ipv4_at(data, IP_DESTINATION_OFFSET) })
    } else if ip_protocol == 6 || ip_protocol == 17 {
        Some(
            FlowId::GenericL3 {
                src_ip: ipv4_at(data, IP_SOURCE_OFFSET),
                dst_ip: ipv4_at(data, IP_DESTINATION_OFFSET),
                src_port: be_u16(data, next),
                dst_port: be_u16(data, next + 2),
                protocol: ip_protocol,
            },
        )
    } else {
        None
    }
}

/// Detects the protocol of frames and parses them, remembering per flow
/// which parser worked.
pub struct ProtocolRegistry {
    parsers: Vec<ParserEntry>,
    flow_cache: DashMap<(u8, u128, u128, u64), u64>,
    cache_hits: u64,
    cache_misses: u64,
    ethertype_fast_path: u64,
    unknown_protocol: u64,
}

impl View for ProtocolRegistry {
    type V = RegistryModel;

    closed spec fn view(&self) -> RegistryModel {
        RegistryModel {
            parsers: self.parsers@,
            cache: entries(self.flow_cache),
            cache_hits: self.cache_hits,
            cache_misses: self.cache_misses,
            ethertype_fast_path: self.ethertype_fast_path,
            unknown_protocol: self.unknown_protocol,
        }
    }
}

impl ProtocolRegistry {
    /// A registry with the built-in parsers, an empty cache and all
    /// counters at zero.
    pub fn new() -> (r: ProtocolRegistry)
        ensures
            r@.inv(),
            r@.parsers == built_in_parsers(),
            r@.cache == Map::<FlowKey, u64>::empty(),
            r@.cache_hits == 0,
            r@.cache_misses == 0,
            r@.ethertype_fast_path == 0,
            r@.unknown_protocol == 0,
    {
        let mut registry = ProtocolRegistry {
            parsers: Vec::new(),
            flow_cache: map_new(),
            cache_hits: 0,
            cache_misses: 0,
            ethertype_fast_path: 0,
            unknown_protocol: 0,
        };
        let first = registry.add_parser(ParserKind::MACsec, PRIORITY_MACSEC);
        assert(registry@.parsers[0].priority == 30);
        let second = registry.add_parser(ParserKind::IPsec, PRIORITY_IPSEC);
        assert(second == 1);
        assert(registry@.parsers[0].priority == 30 && registry@.parsers[1].priority == 20);
        let third = registry.add_parser(ParserKind::GenericL3, PRIORITY_GENERIC_L3);
        assert(third == 2);
        assert(registry@.parsers =~= built_in_parsers());
        registry
    }

    /// Adds a parser behind those of the same or a higher priority and
    /// before those of a lower one; returns the position it got.
    fn add_parser(&mut self, kind: ParserKind, priority: u8) -> (at: usize)
        requires
            by_priority(old(self)@.parsers),
        ensures
            by_priority(final(self)@.parsers),
            at <= old(self)@.parsers.len(),
            final(self)@ == (RegistryModel {
                parsers: old(self)@.parsers.insert(at as int, ParserEntry { kind, priority }),
                ..old(self)@
            }),
            forall|i: int| 0 <= i < at ==> old(self)@.parsers[i].priority >= priority,
            forall|i: int| at <= i < old(self)@.parsers.len() ==> old(self)@.parsers[i].priority < priority,
    {
        let mut at: usize = 0;
        while at < self.parsers.len() && self.parsers[at].priority >= priority
            invariant
                at <= self.parsers@.len(),
                self@ == old(self)@,
                by_priority(self.parsers@),
                forall|i: int| 0 <= i < at ==> self.parsers@[i].priority >= priority,
            decreases self.parsers@.len() - at,
        {
            at = at + 1;
        }
        self.parsers.insert(at, ParserEntry { kind, priority });
        at
    }

    /// Tier 3: tries the parsers in order of priority and caches the one
    /// that parsed the frame.
    fn full_detection(&mut self, data: &[u8]) -> (r: Result<Option<SequenceInfo>, ParseError>)
        requires
            old(self)@.inv(),
        ensures
            final(self)@ == old(self)@.full_detection(data@).0,
            r == old(self)@.full_detection(data@).1,
    {
        self.cache_misses = self.cache_misses.wrapping_add(1);
        let ghost counted = self@;
        let mut i: usize = 0;
        while i < self.parsers.len()
            invariant
                i <= self.parsers@.len(),
                self@ == counted,
                counted == (RegistryModel {
                    cache_misses: old(self)@.cache_misses.wrapping_add(1),
                    ..old(self)@
                }),
                first_match(self.parsers@, data@, 0) == first_match(self.parsers@, data@, i as int),
            decreases self.parsers@.len() - i,
        {
            match parse_with(self.parsers[i].kind, data) {
                Ok(Some(info)) => {
                    map_insert(&mut self.flow_cache, info.flow_id.key(), i as u64);
                    return Ok(Some(info));
                },
                Ok(None) => {},
                Err(e) => {
                    return Err(e);
                },
            }
            i = i + 1;
        }
        self.unknown_protocol = self.unknown_protocol.wrapping_add(1);
        Ok(None)
    }

    /// Classifies a frame and extracts its sequence information.
    ///
    /// Returns `Ok(None)` for a frame too short for an EtherType or of no
    /// supported protocol, and the parser's error for a frame that has a
    /// protocol's framing but not the length it declares.
    pub fn detect_and_parse(&mut self, data: &[u8]) -> (r: Result<Option<SequenceInfo>, ParseError>)
        requires
            old(self)@.inv(),
        ensures
            final(self)@ == old(self)@.detect(data@).0,
            r == old(self)@.detect(data@).1,
            final(self)@.inv(),
    {
        proof {
            crate::protocol::registry_laws::lemma_detect_inv(self@, data@);
        }
        if data.len() < 14 {
            return Ok(None);
        }
        let ethertype = be_u16(data, 12);
        if ethertype == ETHERTYPE_MACSEC {
            self.ethertype_fast_path = self.ethertype_fast_path.wrapping_add(1);
            return MACsecParser.parse_sequence(data);
        }
        if ethertype != ETHERTYPE_IPV4 {
            self.unknown_protocol = self.unknown_protocol.wrapping_add(1);
            return Ok(None);
        }
        if let Some(flow_id) = extract_provisional_flow_id(data) {
            let key = flow_id.key();
            if let Some(cached) = map_get(&self.flow_cache, key) {
                let held = self.parsers.len();
                assert(self@.cache.contains_key(key));
                assert(cached < held);
                match parse_with(self.parsers[cached as usize].kind, data) {
                    Ok(Some(info)) => {
                        self.cache_hits = self.cache_hits.wrapping_add(1);
                        return Ok(Some(info));
                    },
                    Ok(None) => {
                        map_remove(&mut self.flow_cache, key);
                    },
                    Err(e) => {
                        return Err(e);
                    },
                }
            }
        }
        self.full_detection(data)
    }

    /// The current counters and the number of cached flows.
    pub fn get_stats(&self) -> (stats: RegistryStats)
        requires
            self@.inv(),
        ensures
            stats.cache_hits == self@.cache_hits,
            stats.cache_misses == self@.cache_misses,
            stats.ethertype_fast_path == self@.ethertype_fast_path,
            stats.unknown_protocol == self@.unknown_protocol,
            stats.cache_size == self@.cache.len(),
    {
        RegistryStats {
            cache_hits: self.cache_hits,
            cache_misses: self.cache_misses,
            ethertype_fast_path: self.ethertype_fast_path,
            unknown_protocol: self.unknown_protocol,
            cache_size: map_len(&self.flow_cache),
        }
    }

    /// Forgets every cached flow; parsers and counters stay.
    pub fn clear_cache(&mut self)
        requires
            old(self)@.inv(),
        ensures
            final(self)@ == (RegistryModel { cache: Map::<FlowKey, u64>::empty(), ..old(self)@ }),
            final(self)@.inv(),
    {
        map_clear(&mut self.flow_cache);
    }
}

} // verus!
