//! Plain TCP and UDP over IPv4: the 5-tuple. Such flows are counted but
//! not sequenced, so the sequence number reported is always zero.

use crate::error::ParseError;
use crate::protocol::ipv4::{
    ip_header_end, ipv4_at, spec_ip_header_end, spec_ipv4_at, spec_is_ipv4, IP_DESTINATION_OFFSET,
    IP_PROTOCOL_OFFSET, IP_SOURCE_OFFSET, MIN_IPV4_FRAME_LEN,
};
use crate::protocol::parser::SequenceParser;
use crate::types::{FlowId, SequenceInfo};
use crate::wire::{be_u16, spec_be_u16};
use vstd::prelude::*;

verus! {

/// IP protocol number of TCP.
pub const IP_PROTOCOL_TCP: u8 = 6;

/// IP protocol number of UDP.
pub const IP_PROTOCOL_UDP: u8 = 17;

/// Length of a UDP header.
pub const UDP_HEADER_LEN: usize = 8;

/// Sequence number reported for every 5-tuple flow.
pub const GENERIC_SEQUENCE: u32 = 0;

/// Whether a frame is an IPv4 frame of at least 42 bytes that carries TCP
/// or UDP.
pub open spec fn generic_l3_accepts(data: Seq<u8>) -> bool {
    data.len() >= 42 && spec_is_ipv4(data) && (data[23] == 6 || data[23] == 17)
}

/// Length of the transport header of a frame whose transport part starts
/// at `transport` and is `available` bytes long: for TCP four times the
/// data offset nibble (20 where the frame ends before that nibble), for
/// UDP eight.
pub open spec fn spec_transport_header_len(data: Seq<u8>, transport: int, available: int) -> int {
    if data[23] == 6 {
        if available > 12 {
            (data[transport + 12] as int / 16) * 4
        } else {
            20
        }
    } else {
        8
    }
}

/// The fields of a TCP or UDP frame: addresses from the IPv4 header,
/// ports from the first four bytes of the transport header, sequence
/// number zero, and as payload what follows the transport header.
pub open spec fn generic_l3_parsed(data: Seq<u8>) -> Result<Option<SequenceInfo>, ParseError> {
    let transport = spec_ip_header_end(data);
    let available = data.len() - transport;
    let header = spec_transport_header_len(data, transport, available);
    if !generic_l3_accepts(data) {
        Ok(None)
    } else if available < 4 || (data[23] == 6 && available < 8) {
        Err(ParseError::PacketTooShort)
    } else {
        Ok(
            Some(
                SequenceInfo {
                    sequence_number: 0,
                    flow_id: FlowId::GenericL3 {
                        src_ip: spec_ipv4_at(data, 26),
                        dst_ip: spec_ipv4_at(data, 30),
                        src_port: spec_be_u16(data, transport),
                        dst_port: spec_be_u16(data, transport + 2),
                        protocol: data[23],
                    },
                    payload_length: if available > header {
                        (available - header) as usize
                    } else {
                        0
                    },
                },
            ),
        )
    }
}

/// Parser for plain TCP and UDP frames.
pub struct GenericL3Parser;

impl SequenceParser for GenericL3Parser {
    open spec fn accepts(&self, data: Seq<u8>) -> bool {
        generic_l3_accepts(data)
    }

    open spec fn parsed(&self, data: Seq<u8>) -> Result<Option<SequenceInfo>, ParseError> {
        generic_l3_parsed(data)
    }

    fn parse_sequence(&self, data: &[u8]) -> (r: Result<Option<SequenceInfo>, ParseError>) {
        if !self.matches(data) {
            return Ok(None);
        }
        let transport = ip_header_end(data);
        if data.len() < transport {
            return Err(ParseError::PacketTooShort);
        }
        let available = data.len() - transport;
        if available < 4 {
            return Err(ParseError::PacketTooShort);
        }
        let protocol = data[IP_PROTOCOL_OFFSET];
        let src_ip = ipv4_at(data, IP_SOURCE_OFFSET);
        let dst_ip = ipv4_at(data, IP_DESTINATION_OFFSET);
        let src_port = be_u16(data, transport);
        let dst_port = be_u16(data, transport + 2);
        let header_len: usize = if protocol == IP_PROTOCOL_TCP {
            if available < 8 {
                return Err(ParseError::PacketTooShort);
            }
            if available > 12 {
                let offset_byte = data[transport + 12];
                assert(offset_byte >> 4 == offset_byte / 16) by (bit_vector);
                (offset_byte >> 4) as usize * 4
            } else {
                20
            }
        } else {
            UDP_HEADER_LEN
        };
        let payload_length = if available > header_len {
            available - header_len
        } else {
            0
        };
        Ok(
            Some(
                SequenceInfo {
                    sequence_number: GENERIC_SEQUENCE,
                    flow_id: FlowId::GenericL3 { src_ip, dst_ip, src_port, dst_port, protocol },
                    payload_length,
                },
            ),
        )
    }

    fn matches(&self, data: &[u8]) -> (b: bool) {
        if data.len() < MIN_IPV4_FRAME_LEN {
            return false;
        }
        if data[12] != 0x08 || data[13] != 0x00 {
            return false;
        }
        let protocol = data[IP_PROTOCOL_OFFSET];
        protocol == IP_PROTOCOL_TCP || protocol == IP_PROTOCOL_UDP
    }

    open spec fn name(&self) -> Seq<char> {
        "Generic-L3"@
    }

    fn protocol_name(&self) -> (name: &str) {
        "Generic-L3"
    }
}

} // verus!
