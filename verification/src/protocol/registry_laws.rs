//! Facts about protocol detection.

use crate::error::ParseError;
use crate::protocol::registry::{
    declined, first_match, parse_by, provisional_flow_id, spec_ethertype, ParserEntry, ParserKind,
    RegistryModel,
};
use crate::protocol::macsec::macsec_parsed;
use crate::types::SequenceInfo;
use vstd::prelude::*;

verus! {

/// Detection keeps the registry's invariant.
pub proof fn lemma_detect_inv(r: RegistryModel, data: Seq<u8>)
    requires
        r.inv(),
    ensures
        r.detect(data).0.inv(),
        r.full_detection(data).0.inv(),
        r.detect(data).0.parsers == r.parsers,
{
    lemma_first_match_in_range(r.parsers, data, 0);
    if data.len() >= 14 && spec_ethertype(data) == 0x0800 {
        match provisional_flow_id(data) {
            Some(flow_id) => {
                if r.cache.contains_key(flow_id.spec_key()) {
                    let evicted = RegistryModel {
                        cache: r.cache.remove(flow_id.spec_key()),
                        ..r
                    };
                    assert(evicted.inv());
                    assert(evicted.full_detection(data).0.inv());
                }
            },
            None => {},
        }
    }
}

/// A match that `first_match` finds is a parser of the list, at or after
/// the start of the search, that does not decline; every parser between
/// the start and the match declines.
pub proof fn lemma_first_match_in_range(parsers: Seq<ParserEntry>, data: Seq<u8>, from: int)
    requires
        0 <= from,
    ensures
        match first_match(parsers, data, from) {
            Some(i) => from <= i < parsers.len() && !declined(parse_by(parsers[i].kind, data))
                && forall|j: int| from <= j < i ==> declined(parse_by(parsers[j].kind, data)),
            None => forall|j: int|
                from <= j < parsers.len() ==> declined(parse_by(parsers[j].kind, data)),
        },
    decreases parsers.len() - from,
{
    if from < parsers.len() && declined(parse_by(parsers[from].kind, data)) {
        lemma_first_match_in_range(parsers, data, from + 1);
    }
}


/// No frame is taken by two parsers of different kinds: where one does
/// not decline, the other does.
pub proof fn lemma_parsers_exclusive(a: ParserKind, b: ParserKind, data: Seq<u8>)
    requires
        a != b,
        !declined(parse_by(a, data)),
    ensures
        declined(parse_by(b, data)),
{
}

/// The variant of the flow identifier that a parser reports tells the
/// parser's kind.
pub proof fn lemma_flow_tells_kind(kind: ParserKind, data: Seq<u8>, info: SequenceInfo)
    requires
        parse_by(kind, data) == Ok::<Option<SequenceInfo>, ParseError>(Some(info)),
    ensures
        kind == ParserKind::MACsec <==> info.flow_id is MACsec,
        kind == ParserKind::IPsec <==> info.flow_id is IPsec,
        kind == ParserKind::GenericL3 <==> info.flow_id is GenericL3,
{
}

/// Where the IPsec or the TCP/UDP parser succeeds, the provisional flow
/// identifier is the one that the parser reports.
pub proof fn lemma_provisional_is_parsed(kind: ParserKind, data: Seq<u8>, info: SequenceInfo)
    requires
        kind != ParserKind::MACsec,
        parse_by(kind, data) == Ok::<Option<SequenceInfo>, ParseError>(Some(info)),
    ensures
        provisional_flow_id(data) == Some(info.flow_id),
{
}

/// What detection returns for a frame when nothing is cached.
pub open spec fn classify(parsers: Seq<ParserEntry>, data: Seq<u8>) -> Result<
    Option<SequenceInfo>,
    ParseError,
> {
    if data.len() < 14 {
        Ok(None)
    } else if spec_ethertype(data) == 0x88E5 {
        macsec_parsed(data)
    } else if spec_ethertype(data) != 0x0800 {
        Ok(None)
    } else {
        match first_match(parsers, data, 0) {
            Some(i) => parse_by(parsers[i].kind, data),
            None => Ok(None),
        }
    }
}

/// The cache is transparent: what detection returns for a frame depends
/// on the frame and the parsers only, never on the cache or the counters.
pub proof fn law_cache_is_transparent(r: RegistryModel, data: Seq<u8>)
    requires
        r.inv(),
    ensures
        r.detect(data).1 == classify(r.parsers, data),
{
    lemma_first_match_in_range(r.parsers, data, 0);
    if data.len() >= 14 && spec_ethertype(data) == 0x0800 {
        match provisional_flow_id(data) {
            Some(flow_id) => {
                if r.cache.contains_key(flow_id.spec_key()) {
                    let cached = r.cache[flow_id.spec_key()] as int;
                    let found = parse_by(r.parsers[cached].kind, data);
                    if !declined(found) {
                        let i = first_match(r.parsers, data, 0).unwrap();
                        if r.parsers[i].kind != r.parsers[cached].kind {
                            lemma_parsers_exclusive(
                                r.parsers[cached].kind,
                                r.parsers[i].kind,
                                data,
                            );
                        }
                    }
                }
            },
            None => {},
        }
    }
}

/// Cache correctness: once a frame of a flow has been parsed by the scan
/// over all parsers, every later frame that parses to the same flow is
/// served from the cache: the hit counter goes up by one, and neither the
/// other counters nor the cache change.
pub proof fn law_second_packet_hits_cache(
    r: RegistryModel,
    first: Seq<u8>,
    first_info: SequenceInfo,
    second: Seq<u8>,
    second_info: SequenceInfo,
)
    requires
        r.inv(),
        first.len() >= 14,
        spec_ethertype(first) == 0x0800,
        r.detect(first).1 == Ok::<Option<SequenceInfo>, ParseError>(Some(first_info)),
        r.detect(first).0.cache_misses == r.cache_misses.wrapping_add(1),
        second.len() >= 14,
        spec_ethertype(second) == 0x0800,
        classify(r.parsers, second) == Ok::<Option<SequenceInfo>, ParseError>(Some(second_info)),
        second_info.flow_id == first_info.flow_id,
    ensures
        r.detect(first).0.detect(second) == (
            RegistryModel {
                cache_hits: r.detect(first).0.cache_hits.wrapping_add(1),
                ..r.detect(first).0
            },
            Ok::<Option<SequenceInfo>, ParseError>(Some(second_info)),
        ),
{
    lemma_first_match_in_range(r.parsers, first, 0);
    lemma_first_match_in_range(r.parsers, second, 0);
    lemma_detect_inv(r, first);
    let after = r.detect(first).0;
    // the scan found the first frame's parser and cached it
    let i = first_match(r.parsers, first, 0).unwrap();
    lemma_flow_tells_kind(r.parsers[i].kind, first, first_info);
    assert(after.cache.contains_key(first_info.flow_id.spec_key()));
    assert(after.cache[first_info.flow_id.spec_key()] == i);
    // the second frame is parsed by a parser of the same kind
    let j = first_match(r.parsers, second, 0).unwrap();
    lemma_flow_tells_kind(r.parsers[j].kind, second, second_info);
    lemma_provisional_is_parsed(r.parsers[j].kind, second, second_info);
    assert(r.parsers[i].kind == r.parsers[j].kind);
}

} // verus!
