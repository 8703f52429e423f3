//! Synthetic MACsec traffic: frames with consecutive packet numbers and
//! the PCAP records that carry them.

use crate::error::ParseError;
use crate::protocol::macsec::macsec_parsed;
use crate::types::{FlowId, SequenceInfo, Timestamp};
use crate::wire::{
    append_bytes, be_bytes_u16, be_bytes_u32, le_bytes_i32, le_bytes_u16, le_bytes_u32,
    spec_be_bytes_u16, spec_be_bytes_u32, spec_be_u32, spec_be_u64, spec_le_bytes_u16,
    spec_le_bytes_u32, spec_pattern_i32,
};
use vstd::prelude::*;

verus! {

/// EtherType of MACsec.
pub const MACSEC_ETHERTYPE: u16 = 0x88E5;

/// Length of the integrity check value.
pub const ICV_LENGTH: usize = 16;

/// Length of the payload of a generated frame.
pub const PAYLOAD_LENGTH: usize = 46;

/// TCI/AN byte of a generated frame: SCI present, encrypted, changed
/// text, association number 3.
pub const GENERATED_TCI_AN: u8 = 0x2f;

/// Magic number of a PCAP file with microsecond timestamps.
pub const PCAP_MAGIC: u32 = 0xa1b2c3d4;

/// Multiplier of the linear congruential generator that picks the
/// packets to drop.
pub const LCG_MULTIPLIER: u64 = 1103515245;

/// Increment of the linear congruential generator.
pub const LCG_INCREMENT: u64 = 12345;

/// The security tag of a MACsec frame.
#[derive(Clone, Copy)]
pub struct SecTag {
    pub packet_number: u32,
    /// MAC address of the station that sends on the channel.
    pub system_id: [u8; 6],
    pub port_id: u16,
    pub tci_an: u8,
}

/// Byte `i` of the filling pattern of a frame with packet number `pn`.
pub open spec fn pattern_byte(pn: u32, i: int) -> u8 {
    ((pn % 0x100 + i) % 0x100) as u8
}

/// The filling pattern of a frame, `len` bytes long.
pub open spec fn pattern(pn: u32, len: nat) -> Seq<u8> {
    Seq::new(len, |i: int| pattern_byte(pn, i))
}

impl SecTag {
    /// The tag on the wire: EtherType, TCI/AN, short length, packet
    /// number, and the channel identifier made of system and port.
    pub open spec fn spec_bytes(self) -> Seq<u8> {
        seq![0x88u8, 0xE5u8, self.tci_an, 0x2Eu8] + spec_be_bytes_u32(self.packet_number)
            + self.system_id@ + spec_be_bytes_u16(self.port_id)
    }

    /// The secure channel identifier: the system identifier followed by
    /// the port, as one big-endian number.
    pub open spec fn spec_sci(self) -> u64 {
        spec_be_u64(self.system_id@ + spec_be_bytes_u16(self.port_id), 0)
    }

    /// A tag for an encrypted frame with the channel identifier present.
    pub fn new(packet_number: u32, system_id: [u8; 6], port_id: u16) -> (tag: SecTag)
        ensures
            tag.packet_number == packet_number,
            tag.system_id == system_id,
            tag.port_id == port_id,
            tag.tci_an == 0x2f,
    {
        SecTag { packet_number, system_id, port_id, tci_an: GENERATED_TCI_AN }
    }

    /// The tag on the wire.
    pub fn to_bytes(&self) -> (bytes: Vec<u8>)
        ensures
            bytes@ == self.spec_bytes(),
            bytes@.len() == 16,
    {
        let mut bytes: Vec<u8> = Vec::new();
        let ethertype = be_bytes_u16(MACSEC_ETHERTYPE);
        append_bytes(&mut bytes, ethertype.as_slice());
        bytes.push(self.tci_an);
        assert(46u8 & 0x7F == 0x2E) by (bit_vector);
        let short_length = (PAYLOAD_LENGTH as u8) & 0x7F;
        bytes.push(short_length);
        let number = be_bytes_u32(self.packet_number);
        append_bytes(&mut bytes, number.as_slice());
        append_bytes(&mut bytes, self.system_id.as_slice());
        let port = be_bytes_u16(self.port_id);
        append_bytes(&mut bytes, port.as_slice());
        assert(bytes@ =~= self.spec_bytes());
        bytes
    }
}

/// A MACsec frame.
pub struct MACsecPacket {
    pub dest_mac: [u8; 6],
    pub src_mac: [u8; 6],
    pub sec_tag: SecTag,
    pub payload: Vec<u8>,
    pub icv: [u8; 16],
}

/// `len` bytes of the filling pattern of packet number `pn`.
fn fill_pattern(pn: u32, len: usize) -> (bytes: Vec<u8>)
    ensures
        bytes@ == pattern(pn, len as nat),
{
    let mut bytes: Vec<u8> = Vec::new();
    let base = (pn % 0x100) as u8;
    let mut i: usize = 0;
    while i < len
        invariant
            i <= len,
            base == pn % 0x100,
            bytes@ == pattern(pn, i as nat),
        decreases len - i,
    {
        let b = ((base as usize + i % 0x100) % 0x100) as u8;
        assert(b == pattern_byte(pn, i as int)) by {
            assert((base as int + (i as int) % 0x100) % 0x100 == (base as int + i as int)
                % 0x100) by (nonlinear_arith)
                requires
                    0 <= base < 256,
                    0 <= i,
            ;
        }
        bytes.push(b);
        assert(bytes@ =~= pattern(pn, (i + 1) as nat));
        i = i + 1;
    }
    bytes
}

impl MACsecPacket {
    /// The frame on the wire: addresses, tag, payload, check value.
    pub open spec fn spec_bytes(self) -> Seq<u8> {
        self.dest_mac@ + self.src_mac@ + self.sec_tag.spec_bytes() + self.payload@ + self.icv@
    }

    /// A frame with the packet number `packet_number` on the channel of
    /// `system_id` and `port_id`, with payload and check value filled by
    /// the pattern of the packet number.
    pub fn new(
        dest_mac: [u8; 6],
        src_mac: [u8; 6],
        packet_number: u32,
        system_id: [u8; 6],
        port_id: u16,
    ) -> (packet: MACsecPacket)
        ensures
            packet.dest_mac == dest_mac,
            packet.src_mac == src_mac,
            packet.sec_tag.packet_number == packet_number,
            packet.sec_tag.system_id == system_id,
            packet.sec_tag.port_id == port_id,
            packet.sec_tag.tci_an == 0x2f,
            packet.payload@ == pattern(packet_number, 46),
            packet.icv@ == pattern(packet_number, 16),
    {
        let sec_tag = SecTag::new(packet_number, system_id, port_id);
        let payload = fill_pattern(packet_number, PAYLOAD_LENGTH);
        let filled = fill_pattern(packet_number, ICV_LENGTH);
        let mut icv = [0u8; 16];
        let mut i: usize = 0;
        while i < ICV_LENGTH
            invariant
                i <= 16,
                filled@ == pattern(packet_number, 16),
                forall|k: int| 0 <= k < i ==> icv@[k] == filled@[k],
            decreases 16 - i,
        {
            icv[i] = filled[i];
            i = i + 1;
        }
        assert(icv@ =~= pattern(packet_number, 16));
        MACsecPacket { dest_mac, src_mac, sec_tag, payload, icv }
    }

    /// The frame on the wire.
    pub fn to_bytes(&self) -> (bytes: Vec<u8>)
        ensures
            bytes@ == self.spec_bytes(),
    {
        let mut bytes: Vec<u8> = Vec::new();
        append_bytes(&mut bytes, self.dest_mac.as_slice());
        append_bytes(&mut bytes, self.src_mac.as_slice());
        let tag = self.sec_tag.to_bytes();
        append_bytes(&mut bytes, tag.as_slice());
        append_bytes(&mut bytes, self.payload.as_slice());
        append_bytes(&mut bytes, self.icv.as_slice());
        assert(bytes@ =~= self.spec_bytes());
        bytes
    }
}

/// A generated frame is read back: the MACsec parser finds the frame's
/// packet number and channel identifier, and the payload without header
/// and check value.
pub proof fn law_generated_frame_parses(packet: MACsecPacket)
    ensures
        macsec_parsed(packet.spec_bytes()) == Ok::<Option<SequenceInfo>, ParseError>(
            Some(
                SequenceInfo {
                    sequence_number: packet.sec_tag.packet_number,
                    flow_id: FlowId::MACsec { sci: packet.sec_tag.spec_sci() },
                    payload_length: packet.payload@.len() as usize,
                },
            ),
        ),
{
    let frame = packet.spec_bytes();
    let tag = packet.sec_tag;
    let n = tag.packet_number;
    assert(frame.len() == 44 + packet.payload@.len());
    assert(frame[12] == 0x88 && frame[13] == 0xE5);
    assert(frame[16] == spec_be_bytes_u32(n)[0]);
    assert(frame[17] == spec_be_bytes_u32(n)[1]);
    assert(frame[18] == spec_be_bytes_u32(n)[2]);
    assert(frame[19] == spec_be_bytes_u32(n)[3]);
    assert((n / 0x100_0000) * 0x100_0000 + ((n / 0x1_0000) % 0x100) * 0x1_0000 + ((n / 0x100)
        % 0x100) * 0x100 + n % 0x100 == n) by (bit_vector);
    assert(spec_be_u32(frame, 16) == n);
    let channel = tag.system_id@ + spec_be_bytes_u16(tag.port_id);
    assert forall|k: int| 0 <= k < 8 implies frame[20 + k] == channel[k] by {}
    assert(spec_be_u32(frame, 20) == spec_be_u32(channel, 0));
    assert(spec_be_u32(frame, 24) == spec_be_u32(channel, 4));
}

/// The header that starts a PCAP file.
pub struct PcapGlobalHeader {
    pub magic_number: u32,
    pub version_major: u16,
    pub version_minor: u16,
    pub thiszone: i32,
    pub sigfigs: u32,
    pub snaplen: u32,
    pub network: u32,
}

impl PcapGlobalHeader {
    /// The header on the wire: all fields little-endian.
    pub open spec fn spec_bytes(self) -> Seq<u8> {
        spec_le_bytes_u32(self.magic_number) + spec_le_bytes_u16(self.version_major)
            + spec_le_bytes_u16(self.version_minor) + spec_le_bytes_u32(
            spec_pattern_i32(self.thiszone),
        ) + spec_le_bytes_u32(self.sigfigs) + spec_le_bytes_u32(self.snaplen) + spec_le_bytes_u32(
            self.network,
        )
    }

    /// The header of a file of Ethernet frames: version 2.4, UTC,
    /// snapshot length 65535.
    pub fn new() -> (h: PcapGlobalHeader)
        ensures
            h.magic_number == 0xa1b2c3d4,
            h.version_major == 2,
            h.version_minor == 4,
            h.thiszone == 0,
            h.sigfigs == 0,
            h.snaplen == 65535,
            h.network == 1,
    {
        PcapGlobalHeader {
            magic_number: PCAP_MAGIC,
            version_major: 2,
            version_minor: 4,
            thiszone: 0,
            sigfigs: 0,
            snaplen: 65535,
            network: 1,
        }
    }

    /// The header on the wire.
    pub fn to_bytes(&self) -> (bytes: Vec<u8>)
        ensures
            bytes@ == self.spec_bytes(),
            bytes@.len() == 24,
    {
        let mut bytes: Vec<u8> = Vec::new();
        append_bytes(&mut bytes, le_bytes_u32(self.magic_number).as_slice());
        append_bytes(&mut bytes, le_bytes_u16(self.version_major).as_slice());
        append_bytes(&mut bytes, le_bytes_u16(self.version_minor).as_slice());
        append_bytes(&mut bytes, le_bytes_i32(self.thiszone).as_slice());
        append_bytes(&mut bytes, le_bytes_u32(self.sigfigs).as_slice());
        append_bytes(&mut bytes, le_bytes_u32(self.snaplen).as_slice());
        append_bytes(&mut bytes, le_bytes_u32(self.network).as_slice());
        assert(bytes@ =~= self.spec_bytes());
        bytes
    }
}

/// The header of one record of a PCAP file.
pub struct PcapPacketHeader {
    pub ts_sec: u32,
    pub ts_usec: u32,
    pub incl_len: u32,
    pub orig_len: u32,
}

impl PcapPacketHeader {
    /// The header on the wire: all fields little-endian.
    pub open spec fn spec_bytes(self) -> Seq<u8> {
        spec_le_bytes_u32(self.ts_sec) + spec_le_bytes_u32(self.ts_usec) + spec_le_bytes_u32(
            self.incl_len,
        ) + spec_le_bytes_u32(self.orig_len)
    }

    /// The header of a packet that was captured whole.
    pub fn new(ts_sec: u32, ts_usec: u32, packet_len: u32) -> (h: PcapPacketHeader)
        ensures
            h.ts_sec == ts_sec,
            h.ts_usec == ts_usec,
            h.incl_len == packet_len,
            h.orig_len == packet_len,
    {
        PcapPacketHeader { ts_sec, ts_usec, incl_len: packet_len, orig_len: packet_len }
    }

    /// The header on the wire.
    pub fn to_bytes(&self) -> (bytes: Vec<u8>)
        ensures
            bytes@ == self.spec_bytes(),
            bytes@.len() == 16,
    {
        let mut bytes: Vec<u8> = Vec::new();
        append_bytes(&mut bytes, le_bytes_u32(self.ts_sec).as_slice());
        append_bytes(&mut bytes, le_bytes_u32(self.ts_usec).as_slice());
        append_bytes(&mut bytes, le_bytes_u32(self.incl_len).as_slice());
        append_bytes(&mut bytes, le_bytes_u32(self.orig_len).as_slice());
        assert(bytes@ =~= self.spec_bytes());
        bytes
    }
}

/// Seconds (modulo 2^32) and microseconds of a point in time, as a PCAP
/// record holds them.
pub fn get_timestamp(now: Timestamp) -> (parts: (u32, u32))
    ensures
        parts.0 == (now.nanos / 1_000_000_000) % 0x1_0000_0000,
        parts.1 == (now.nanos % 1_000_000_000) / 1_000,
{
    let secs = now.nanos / 1_000_000_000;
    let micros = (now.nanos % 1_000_000_000) / 1_000;
    ((secs % 0x1_0000_0000) as u32, micros as u32)
}

/// The next state of the generator and the packet number that it picks,
/// between 1 and `total_packets`.
pub open spec fn spec_next_drop_candidate(seed: u64, total_packets: u32) -> (u64, u32) {
    let next = seed.wrapping_mul(1103515245).wrapping_add(12345);
    (next, ((next % (total_packets as u64)) + 1) as u32)
}

/// One step of the choice of packets to drop.
pub fn next_drop_candidate(seed: u64, total_packets: u32) -> (r: (u64, u32))
    requires
        total_packets > 0,
    ensures
        r == spec_next_drop_candidate(seed, total_packets),
        1 <= r.1 <= total_packets,
{
    let next = seed.wrapping_mul(LCG_MULTIPLIER).wrapping_add(LCG_INCREMENT);
    let packet_number = (next % total_packets as u64) as u32 + 1;
    (next, packet_number)
}

} // verus!
