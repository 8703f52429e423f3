//! MACsec (IEEE 802.1AE): the packet number and the secure channel
//! identifier of the security tag.

use crate::error::ParseError;
use crate::protocol::parser::SequenceParser;
use crate::types::{FlowId, SequenceInfo};
use crate::wire::{read_u32_be, read_u64_be, spec_be_u32, spec_be_u64};
use vstd::prelude::*;
use vstd::slice::slice_subrange;

verus! {

/// Offset of the packet number in a MACsec frame.
pub const MACSEC_PN_OFFSET: usize = 16;

/// Offset of the secure channel identifier.
pub const MACSEC_SCI_OFFSET: usize = 20;

/// Length of Ethernet header and security tag together.
pub const MACSEC_HEADER_LEN: usize = 28;

/// Length of the integrity check value that ends the frame.
pub const MACSEC_ICV_LEN: usize = 16;

/// Whether a frame is long enough for an EtherType and carries 0x88E5.
pub open spec fn macsec_accepts(data: Seq<u8>) -> bool {
    data.len() >= 14 && data[12] == 0x88 && data[13] == 0xE5
}

/// The fields of a MACsec frame: packet number at offset 16, secure
/// channel identifier at offset 20, and the payload between the 28-byte
/// header and the 16-byte integrity check value.
pub open spec fn macsec_parsed(data: Seq<u8>) -> Result<Option<SequenceInfo>, ParseError> {
    if !macsec_accepts(data) {
        Ok(None)
    } else if data.len() < 30 {
        Err(ParseError::PacketTooShort)
    } else {
        Ok(
            Some(
                SequenceInfo {
                    sequence_number: spec_be_u32(data, 16),
                    flow_id: FlowId::MACsec { sci: spec_be_u64(data, 20) },
                    payload_length: if data.len() > 44 {
                        (data.len() - 44) as usize
                    } else {
                        0
                    },
                },
            ),
        )
    }
}

/// Parser for MACsec frames.
pub struct MACsecParser;

impl SequenceParser for MACsecParser {
    open spec fn accepts(&self, data: Seq<u8>) -> bool {
        macsec_accepts(data)
    }

    open spec fn parsed(&self, data: Seq<u8>) -> Result<Option<SequenceInfo>, ParseError> {
        macsec_parsed(data)
    }

    fn parse_sequence(&self, data: &[u8]) -> (r: Result<Option<SequenceInfo>, ParseError>) {
        if !self.matches(data) {
            return Ok(None);
        }
        if data.len() < 30 {
            return Err(ParseError::PacketTooShort);
        }
        let pn_field = slice_subrange(data, MACSEC_PN_OFFSET, MACSEC_PN_OFFSET + 4);
        let packet_number = read_u32_be(pn_field);
        let sci_field = slice_subrange(data, MACSEC_SCI_OFFSET, MACSEC_SCI_OFFSET + 8);
        let sci = read_u64_be(sci_field);
        let payload_length = if data.len() > MACSEC_HEADER_LEN + MACSEC_ICV_LEN {
            data.len() - MACSEC_HEADER_LEN - MACSEC_ICV_LEN
        } else {
            0
        };
        Ok(Some(SequenceInfo { sequence_number: packet_number, flow_id: FlowId::MACsec { sci }, payload_length }))
    }

    fn matches(&self, data: &[u8]) -> (b: bool) {
        if data.len() < 14 {
            return false;
        }
        data[12] == 0x88 && data[13] == 0xE5
    }

    open spec fn name(&self) -> Seq<char> {
        "MACsec"@
    }

    fn protocol_name(&self) -> (name: &str) {
        "MACsec"
    }
}

} // verus!
