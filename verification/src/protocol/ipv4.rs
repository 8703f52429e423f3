//! The parts of an Ethernet + IPv4 frame that the parsers read.

use crate::types::IpAddress;
use crate::wire::{be_u32, spec_be_u32};
use vstd::prelude::*;

verus! {

/// Length of the Ethernet header.
pub const ETHERNET_HEADER_LEN: usize = 14;

/// Shortest frame that the IPv4 parsers look at: Ethernet header, a
/// 20-byte IPv4 header and 8 bytes of the next header.
pub const MIN_IPV4_FRAME_LEN: usize = 42;

/// Offset of the IP protocol number.
pub const IP_PROTOCOL_OFFSET: usize = 23;

/// Offset of the IPv4 source address.
pub const IP_SOURCE_OFFSET: usize = 26;

/// Offset of the IPv4 destination address.
pub const IP_DESTINATION_OFFSET: usize = 30;

/// Whether the EtherType of a frame of at least 14 bytes is 0x0800.
pub open spec fn spec_is_ipv4(data: Seq<u8>) -> bool {
    data[12] == 0x08 && data[13] == 0x00
}

/// Where the IPv4 header ends: after the Ethernet header and as many
/// 32-bit words as the header length nibble says.
pub open spec fn spec_ip_header_end(data: Seq<u8>) -> int {
    14 + (data[14] as int % 16) * 4
}

/// Offset of the first byte after the IPv4 header.
pub fn ip_header_end(data: &[u8]) -> (end: usize)
    requires
        data@.len() > 14,
    ensures
        end == spec_ip_header_end(data@),
        14 <= end <= 74,
{
    let first = data[14];
    assert(first & 0x0f == first % 16) by (bit_vector);
    ETHERNET_HEADER_LEN + (first & 0x0f) as usize * 4
}

/// The IPv4 address stored at offset `at`.
pub open spec fn spec_ipv4_at(data: Seq<u8>, at: int) -> IpAddress {
    IpAddress::V4(spec_be_u32(data, at))
}

/// Reads the IPv4 address stored at offset `at`.
pub fn ipv4_at(data: &[u8], at: usize) -> (ip: IpAddress)
    requires
        at + 4 <= data@.len(),
    ensures
        ip == spec_ipv4_at(data@, at as int),
{
    IpAddress::V4(be_u32(data, at))
}

} // verus!
