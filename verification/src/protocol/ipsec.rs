//! IPsec ESP over IPv4: the security parameter index and sequence number
//! of the ESP header.

use crate::error::ParseError;
use crate::protocol::ipv4::{
    ip_header_end, ipv4_at, spec_ip_header_end, spec_ipv4_at, spec_is_ipv4, IP_DESTINATION_OFFSET,
    IP_PROTOCOL_OFFSET, MIN_IPV4_FRAME_LEN,
};
use crate::protocol::parser::SequenceParser;
use crate::types::{FlowId, SequenceInfo};
use crate::wire::{be_u32, spec_be_u32};
use vstd::prelude::*;

verus! {

/// IP protocol number of ESP.
pub const IP_PROTOCOL_ESP: u8 = 50;

/// Length of the ESP header: SPI and sequence number.
pub const ESP_HEADER_LEN: usize = 8;

/// Whether a frame is an IPv4 frame of at least 42 bytes with protocol 50.
pub open spec fn ipsec_accepts(data: Seq<u8>) -> bool {
    data.len() >= 42 && spec_is_ipv4(data) && data[23] == 50
}

/// The fields of an ESP frame: SPI and sequence number at the start of
/// the ESP header, which follows the IPv4 header; the destination address
/// from the IPv4 header; and as payload everything after the ESP header.
pub open spec fn ipsec_parsed(data: Seq<u8>) -> Result<Option<SequenceInfo>, ParseError> {
    let esp = spec_ip_header_end(data);
    if !ipsec_accepts(data) {
        Ok(None)
    } else if data.len() < esp + 8 {
        Err(ParseError::PacketTooShort)
    } else {
        Ok(
            Some(
                SequenceInfo {
                    sequence_number: spec_be_u32(data, esp + 4),
                    flow_id: FlowId::IPsec {
                        spi: spec_be_u32(data, esp),
                        dst_ip: spec_ipv4_at(data, 30),
                    },
                    payload_length: (data.len() - esp - 8) as usize,
                },
            ),
        )
    }
}

/// Parser for IPsec ESP frames.
pub struct IPsecParser;

impl SequenceParser for IPsecParser {
    open spec fn accepts(&self, data: Seq<u8>) -> bool {
        ipsec_accepts(data)
    }

    open spec fn parsed(&self, data: Seq<u8>) -> Result<Option<SequenceInfo>, ParseError> {
        ipsec_parsed(data)
    }

    fn parse_sequence(&self, data: &[u8]) -> (r: Result<Option<SequenceInfo>, ParseError>) {
        if !self.matches(data) {
            return Ok(None);
        }
        let esp = ip_header_end(data);
        if data.len() < esp {
            return Err(ParseError::PacketTooShort);
        }
        if data.len() - esp < ESP_HEADER_LEN {
            return Err(ParseError::PacketTooShort);
        }
        let dst_ip = ipv4_at(data, IP_DESTINATION_OFFSET);
        let spi = be_u32(data, esp);
        let sequence_number = be_u32(data, esp + 4);
        let payload_length = data.len() - esp - ESP_HEADER_LEN;
        Ok(Some(SequenceInfo { sequence_number, flow_id: FlowId::IPsec { spi, dst_ip }, payload_length }))
    }

    fn matches(&self, data: &[u8]) -> (b: bool) {
        if data.len() < MIN_IPV4_FRAME_LEN {
            return false;
        }
        if data[12] != 0x08 || data[13] != 0x00 {
            return false;
        }
        data[IP_PROTOCOL_OFFSET] == IP_PROTOCOL_ESP
    }

    open spec fn name(&self) -> Seq<char> {
        "IPsec-ESP"@
    }

    fn protocol_name(&self) -> (name: &str) {
        "IPsec-ESP"
    }
}

} // verus!
