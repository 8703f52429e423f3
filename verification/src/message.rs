//! A small framed binary protocol.
//!
//! ```text
//! byte 0      version (must be 1)
//! byte 1      message type
//! bytes 2-3   payload length, big-endian
//! bytes 4..   payload
//! last byte   checksum: XOR of all payload bytes
//! ```

use crate::text::{decimal_text, hex_text, push_decimal, push_hex};
use vstd::prelude::*;
use vstd::slice::slice_subrange;
use vstd::string::StringExecFns;

verus! {

/// Largest payload that the length field can announce.
pub const MAX_PAYLOAD_SIZE: usize = 65535;

/// The only protocol version in use.
pub const PROTOCOL_VERSION: u8 = 1;

/// Why a byte string is not a message.
#[allow(inconsistent_fields)]
#[derive(Debug, Clone, Copy, PartialEq, Eq, Structural)]
pub enum ParseError {
    /// Fewer than the five bytes of the shortest message.
    MessageTooShort { actual: usize },
    /// A version other than 1.
    InvalidVersion { version: u8 },
    /// The announced payload and the checksum do not fit into the data.
    IncompletPayload { expected: usize, actual: usize },
    /// The checksum byte is not the XOR of the payload.
    ChecksumMismatch { expected: u8, calculated: u8 },
    /// A payload beyond the maximum size.
    PayloadTooLarge { size: usize, max: usize },
}

/// A message of the protocol.
#[derive(Debug, PartialEq, Eq)]
pub struct Message {
    pub version: u8,
    pub message_type: u8,
    pub payload: Vec<u8>,
    pub checksum: u8,
}

/// A message as a mathematical value.
pub struct MessageModel {
    pub version: u8,
    pub message_type: u8,
    pub payload: Seq<u8>,
    pub checksum: u8,
}

impl View for Message {
    type V = MessageModel;

    open spec fn view(&self) -> MessageModel {
        MessageModel {
            version: self.version,
            message_type: self.message_type,
            payload: self.payload@,
            checksum: self.checksum,
        }
    }
}

/// XOR of all bytes; zero for no bytes.
pub open spec fn spec_checksum(data: Seq<u8>) -> u8
    decreases data.len(),
{
    if data.len() == 0 {
        0
    } else {
        spec_checksum(data.drop_last()) ^ data.last()
    }
}

/// The number with high byte `hi` and low byte `lo`.
pub open spec fn spec_bytes_to_u16(hi: u8, lo: u8) -> u16 {
    (hi as int * 256 + lo as int) as u16
}

impl MessageModel {
    /// The message on the wire. The length field holds the payload length
    /// modulo 65536.
    pub open spec fn bytes(self) -> Seq<u8> {
        seq![
            self.version,
            self.message_type,
            ((self.payload.len() % 0x1_0000) / 256) as u8,
            (self.payload.len() % 256) as u8,
        ] + self.payload + seq![self.checksum]
    }

    /// Whether version and checksum are as the protocol demands.
    pub open spec fn validated(self) -> Result<(), ParseError> {
        if self.version != 1 {
            Err(ParseError::InvalidVersion { version: self.version })
        } else if spec_checksum(self.payload) != self.checksum {
            Err(
                ParseError::ChecksumMismatch {
                    expected: self.checksum,
                    calculated: spec_checksum(self.payload),
                },
            )
        } else {
            Ok(())
        }
    }

    /// Number of bytes of the message on the wire.
    pub open spec fn wire_len(self) -> int {
        5 + self.payload.len() as int
    }
}

/// The message that starts a byte string, or the reason why none does.
pub open spec fn spec_parse(data: Seq<u8>) -> Result<MessageModel, ParseError> {
    if data.len() < 5 {
        Err(ParseError::MessageTooShort { actual: data.len() as usize })
    } else if data[0] != 1 {
        Err(ParseError::InvalidVersion { version: data[0] })
    } else {
        let length = spec_bytes_to_u16(data[2], data[3]) as int;
        if data.len() < 5 + length {
            Err(
                ParseError::IncompletPayload {
                    expected: (5 + length) as usize,
                    actual: data.len() as usize,
                },
            )
        } else {
            let payload = data.subrange(4, 4 + length);
            if spec_checksum(payload) != data[4 + length] {
                Err(
                    ParseError::ChecksumMismatch {
                        expected: data[4 + length],
                        calculated: spec_checksum(payload),
                    },
                )
            } else {
                Ok(
                    MessageModel {
                        version: data[0],
                        message_type: data[1],
                        payload,
                        checksum: data[4 + length],
                    },
                )
            }
        }
    }
}

/// All messages of a byte string that consists of messages back to back,
/// or the error of the first position where none starts.
pub open spec fn spec_parse_multiple(data: Seq<u8>) -> Result<Seq<MessageModel>, ParseError>
    decreases data.len(),
{
    if data.len() == 0 {
        Ok(Seq::empty())
    } else {
        match spec_parse(data) {
            Err(e) => Err(e),
            // a message read from `data` is never longer than `data`; the
            // test lets the definition be seen to terminate
            Ok(first) => if first.wire_len() > data.len() {
                Ok(seq![first])
            } else {
                match spec_parse_multiple(data.skip(first.wire_len())) {
                    Err(e) => Err(e),
                    Ok(rest) => Ok(seq![first] + rest),
                }
            },
        }
    }
}

/// The messages read so far, followed by what the rest of the data gives.
pub open spec fn continued(
    found: Seq<MessageModel>,
    rest: Result<Seq<MessageModel>, ParseError>,
) -> Result<Seq<MessageModel>, ParseError> {
    match rest {
        Ok(more) => Ok(found + more),
        Err(e) => Err(e),
    }
}

/// The models of a list of messages.
pub open spec fn models(messages: Seq<Message>) -> Seq<MessageModel> {
    Seq::new(messages.len(), |i: int| messages[i]@)
}

/// Computes the XOR checksum of `data`.
pub fn calculate_checksum(data: &[u8]) -> (c: u8)
    ensures
        c == spec_checksum(data@),
{
    let mut acc: u8 = 0;
    let mut i: usize = 0;
    assert(data@.take(0) =~= Seq::<u8>::empty());
    while i < data.len()
        invariant
            i <= data@.len(),
            acc == spec_checksum(data@.take(i as int)),
        decreases data@.len() - i,
    {
        assert(data@.take(i + 1).drop_last() =~= data@.take(i as int));
        acc = acc ^ data[i];
        i = i + 1;
    }
    assert(data@.take(i as int) =~= data@);
    acc
}

/// Combines the first two bytes into a big-endian number.
pub fn bytes_to_u16(bytes: &[u8]) -> (v: u16)
    requires
        bytes@.len() >= 2,
    ensures
        v == spec_bytes_to_u16(bytes@[0], bytes@[1]),
{
    let hi = bytes[0];
    let lo = bytes[1];
    assert(((hi as u16) << 8) | (lo as u16) == (hi as u16) * 256 + (lo as u16)) by (bit_vector);
    ((hi as u16) << 8) | (lo as u16)
}

/// Splits a number into its big-endian bytes.
pub fn u16_to_bytes(value: u16) -> (b: [u8; 2])
    ensures
        b@ == seq![(value / 256) as u8, (value % 256) as u8],
        spec_bytes_to_u16(b@[0], b@[1]) == value,
{
    assert((value >> 8) == value / 256 && (value & 0xFF) == value % 256 && value / 256 < 256)
        by (bit_vector);
    let b = [(value >> 8) as u8, (value & 0xFF) as u8];
    assert(b@ =~= seq![(value / 256) as u8, (value % 256) as u8]);
    b
}

impl Message {
    /// A message with the checksum of its payload.
    pub fn new(version: u8, message_type: u8, payload: Vec<u8>) -> (m: Message)
        ensures
            m@ == (MessageModel {
                version,
                message_type,
                payload: payload@,
                checksum: spec_checksum(payload@),
            }),
    {
        let checksum = calculate_checksum(payload.as_slice());
        Message { version, message_type, payload, checksum }
    }

    /// The message on the wire.
    pub fn to_bytes(&self) -> (bytes: Vec<u8>)
        ensures
            bytes@ == self@.bytes(),
    {
        let mut result: Vec<u8> = Vec::new();
        result.push(self.version);
        result.push(self.message_type);
        let announced = (self.payload.len() % 0x1_0000) as u16;
        let length_bytes = u16_to_bytes(announced);
        result.push(length_bytes[0]);
        result.push(length_bytes[1]);
        let mut i: usize = 0;
        let ghost header = result@;
        while i < self.payload.len()
            invariant
                i <= self.payload@.len(),
                result@ == header + self.payload@.take(i as int),
            decreases self.payload@.len() - i,
        {
            result.push(self.payload[i]);
            assert(self.payload@.take(i + 1) =~= self.payload@.take(i as int).push(
                self.payload@[i as int],
            ));
            i = i + 1;
        }
        assert(self.payload@.take(i as int) =~= self.payload@);
        result.push(self.checksum);
        assert(result@ =~= self@.bytes());
        result
    }

    /// Checks version and checksum.
    pub fn validate(&self) -> (r: Result<(), ParseError>)
        ensures
            r == self@.validated(),
    {
        if self.version != PROTOCOL_VERSION {
            return Err(ParseError::InvalidVersion { version: self.version });
        }
        let calculated = calculate_checksum(self.payload.as_slice());
        if calculated != self.checksum {
            return Err(ParseError::ChecksumMismatch { expected: self.checksum, calculated });
        }
        Ok(())
    }
}

/// Reads the message at the start of `data`; bytes behind it are ignored.
pub fn parse(data: &[u8]) -> (r: Result<Message, ParseError>)
    ensures
        match r {
            Ok(m) => spec_parse(data@) == Ok::<MessageModel, ParseError>(m@),
            Err(e) => spec_parse(data@) == Err::<MessageModel, ParseError>(e),
        },
{
    if data.len() < 5 {
        return Err(ParseError::MessageTooShort { actual: data.len() });
    }
    let version = data[0];
    if version != PROTOCOL_VERSION {
        return Err(ParseError::InvalidVersion { version });
    }
    let message_type = data[1];
    let length = bytes_to_u16(slice_subrange(data, 2, 4)) as usize;
    let required_length = 4 + length + 1;
    if data.len() < required_length {
        return Err(ParseError::IncompletPayload { expected: required_length, actual: data.len() });
    }
    if length > MAX_PAYLOAD_SIZE {
        return Err(ParseError::PayloadTooLarge { size: length, max: MAX_PAYLOAD_SIZE });
    }
    let payload_part = slice_subrange(data, 4, 4 + length);
    let mut payload: Vec<u8> = Vec::new();
    let mut i: usize = 0;
    while i < length
        invariant
            i <= length,
            payload_part@.len() == length,
            payload@ == payload_part@.take(i as int),
        decreases length - i,
    {
        payload.push(payload_part[i]);
        assert(payload_part@.take(i + 1) =~= payload_part@.take(i as int).push(
            payload_part@[i as int],
        ));
        i = i + 1;
    }
    assert(payload_part@.take(length as int) =~= payload_part@);
    let checksum = data[4 + length];
    let message = Message { version, message_type, payload, checksum };
    match message.validate() {
        Ok(()) => Ok(message),
        Err(e) => Err(e),
    }
}

/// Reads messages back to back until the data is used up; the first error
/// ends the reading and is returned alone.
pub fn parse_multiple(data: &[u8]) -> (r: Result<Vec<Message>, ParseError>)
    ensures
        match r {
            Ok(messages) => spec_parse_multiple(data@) == Ok::<Seq<MessageModel>, ParseError>(
                models(messages@),
            ),
            Err(e) => spec_parse_multiple(data@) == Err::<Seq<MessageModel>, ParseError>(e),
        },
{
    let mut messages: Vec<Message> = Vec::new();
    let mut position: usize = 0;
    assert(data@.skip(0) =~= data@);
    assert(models(messages@) =~= Seq::<MessageModel>::empty());
    assert(continued(models(messages@), spec_parse_multiple(data@)) == spec_parse_multiple(data@))
        by {
        match spec_parse_multiple(data@) {
            Ok(more) => {
                assert(Seq::<MessageModel>::empty() + more =~= more);
            },
            Err(e) => {},
        }
    }
    while position < data.len()
        invariant
            position <= data@.len(),
            spec_parse_multiple(data@) == continued(
                models(messages@),
                spec_parse_multiple(data@.skip(position as int)),
            ),
        decreases data@.len() - position,
    {
        let rest = slice_subrange(data, position, data.len());
        assert(rest@ =~= data@.skip(position as int));
        let message = match parse(rest) {
            Ok(m) => m,
            Err(e) => {
                return Err(e);
            },
        };
        let message_length = 5 + message.payload.len();
        let ghost found = models(messages@);
        let ghost first = message@;
        messages.push(message);
        proof {
            assert(models(messages@) =~= found + seq![first]);
            assert(rest@.skip(first.wire_len()) =~= data@.skip(position + message_length));
            match spec_parse_multiple(rest@.skip(first.wire_len())) {
                Ok(more) => {
                    assert(found + (seq![first] + more) =~= (found + seq![first]) + more);
                },
                Err(e) => {},
            }
        }
        position = position + message_length;
    }
    proof {
        assert(data@.skip(position as int).len() == 0);
        assert(models(messages@) + Seq::<MessageModel>::empty() =~= models(messages@));
    }
    Ok(messages)
}


/// Whether a message is one that `parse` accepts: version 1, a payload
/// that the length field can announce, and the payload's checksum.
pub open spec fn well_formed(m: MessageModel) -> bool {
    &&& m.version == 1
    &&& m.payload.len() <= 65535
    &&& m.checksum == spec_checksum(m.payload)
}

/// Round trip: a well-formed message is read back from its bytes,
/// whatever follows them.
pub proof fn law_message_round_trip(m: MessageModel, tail: Seq<u8>)
    requires
        well_formed(m),
    ensures
        spec_parse(m.bytes() + tail) == Ok::<MessageModel, ParseError>(m),
        m.bytes().len() == m.wire_len(),
{
    let data = m.bytes() + tail;
    let n = m.payload.len() as int;
    assert(data[2] == (n / 256) as u8);
    assert(data[3] == (n % 256) as u8);
    assert(spec_bytes_to_u16(data[2], data[3]) == n);
    assert(data.subrange(4, 4 + n) =~= m.payload);
    assert(data[4 + n] == m.checksum);
}

/// What `parse` reads is well-formed, and its bytes are the bytes read.
pub proof fn law_parsed_is_prefix(data: Seq<u8>, m: MessageModel)
    requires
        spec_parse(data) == Ok::<MessageModel, ParseError>(m),
    ensures
        well_formed(m),
        m.wire_len() <= data.len(),
        m.bytes() == data.take(m.wire_len()),
{
    let n = spec_bytes_to_u16(data[2], data[3]) as int;
    assert(m.payload.len() == n);
    assert(((n % 0x1_0000) / 256) as u8 == data[2] && (n % 256) as u8 == data[3]);
    assert(m.bytes() =~= data.take(m.wire_len()));
}

/// The bytes of a list of messages, back to back.
pub open spec fn bytes_of_all(messages: Seq<MessageModel>) -> Seq<u8>
    decreases messages.len(),
{
    if messages.len() == 0 {
        Seq::empty()
    } else {
        messages.first().bytes() + bytes_of_all(messages.drop_first())
    }
}

/// Round trip for streams: well-formed messages written back to back are
/// all read back, in order.
pub proof fn law_stream_round_trip(messages: Seq<MessageModel>)
    requires
        forall|i: int| 0 <= i < messages.len() ==> well_formed(#[trigger] messages[i]),
    ensures
        spec_parse_multiple(bytes_of_all(messages)) == Ok::<Seq<MessageModel>, ParseError>(
            messages,
        ),
    decreases messages.len(),
{
    if messages.len() > 0 {
        let first = messages.first();
        let rest = messages.drop_first();
        let data = bytes_of_all(messages);
        assert forall|i: int| 0 <= i < rest.len() implies well_formed(#[trigger] rest[i]) by {
            assert(rest[i] == messages[i + 1]);
        }
        law_message_round_trip(first, bytes_of_all(rest));
        law_stream_round_trip(rest);
        assert(forall|i: int| 0 <= i < rest.len() ==> rest[i] == messages[i + 1]);
        assert(data == first.bytes() + bytes_of_all(rest));
        assert(data.len() >= first.wire_len());
        assert(data.skip(first.wire_len()) =~= bytes_of_all(rest));
        assert(seq![first] + rest =~= messages);
    } else {
        assert(messages =~= Seq::<MessageModel>::empty());
    }
}

/// The line that describes a message.
pub open spec fn message_text(m: MessageModel) -> Seq<char> {
    "Message v"@ + decimal_text(m.version as nat) + " type="@ + decimal_text(
        m.message_type as nat,
    ) + " payload_len="@ + decimal_text(m.payload.len()) + " checksum=0x"@ + hex_text(
        m.checksum as nat,
        2,
        true,
    )
}

/// The sentence that describes an error.
pub open spec fn error_text(e: ParseError) -> Seq<char> {
    match e {
        ParseError::MessageTooShort { actual } => "Message data too short: "@ + decimal_text(
            actual as nat,
        ) + " bytes (minimum 5 required)"@,
        ParseError::InvalidVersion { version } => "Unsupported protocol version: "@
            + decimal_text(version as nat) + " (only version 1 is supported)"@,
        ParseError::IncompletPayload { expected, actual } => "Incomplete payload: expected "@
            + decimal_text(expected as nat) + " bytes, but only "@ + decimal_text(actual as nat)
            + " available"@,
        ParseError::ChecksumMismatch { expected, calculated } => "Checksum mismatch: expected 0x"@
            + hex_text(expected as nat, 2, true) + ", but calculated 0x"@ + hex_text(
            calculated as nat,
            2,
            true,
        ),
        ParseError::PayloadTooLarge { size, max } => "Payload too large: "@ + decimal_text(
            size as nat,
        ) + " bytes (maximum "@ + decimal_text(max as nat) + " allowed)"@,
    }
}

/// Bytes as two-digit upper-case hexadecimal numbers with blanks between.
pub open spec fn hex_encoded(bytes: Seq<u8>) -> Seq<char>
    decreases bytes.len(),
{
    if bytes.len() == 0 {
        Seq::empty()
    } else if bytes.len() == 1 {
        hex_text(bytes[0] as nat, 2, true)
    } else {
        hex_encoded(bytes.drop_last()) + seq![' '] + hex_text(bytes.last() as nat, 2, true)
    }
}

impl Message {
    /// One line that shows version, type, payload length and checksum.
    pub fn to_string(&self) -> (text: String)
        ensures
            text@ == message_text(self@),
    {
        let mut out = String::from_str("Message v");
        push_decimal(&mut out, self.version as u64);
        out.append(" type=");
        push_decimal(&mut out, self.message_type as u64);
        out.append(" payload_len=");
        push_decimal(&mut out, self.payload.len() as u64);
        out.append(" checksum=0x");
        push_hex(&mut out, self.checksum as u64, 2, true);
        out
    }
}

impl ParseError {
    /// The error in words.
    pub fn to_string(&self) -> (text: String)
        ensures
            text@ == error_text(*self),
    {
        match self {
            ParseError::MessageTooShort { actual } => {
                let mut out = String::from_str("Message data too short: ");
                push_decimal(&mut out, *actual as u64);
                out.append(" bytes (minimum 5 required)");
                out
            },
            ParseError::InvalidVersion { version } => {
                let mut out = String::from_str("Unsupported protocol version: ");
                push_decimal(&mut out, *version as u64);
                out.append(" (only version 1 is supported)");
                out
            },
            ParseError::IncompletPayload { expected, actual } => {
                let mut out = String::from_str("Incomplete payload: expected ");
                push_decimal(&mut out, *expected as u64);
                out.append(" bytes, but only ");
                push_decimal(&mut out, *actual as u64);
                out.append(" available");
                out
            },
            ParseError::ChecksumMismatch { expected, calculated } => {
                let mut out = String::from_str("Checksum mismatch: expected 0x");
                push_hex(&mut out, *expected as u64, 2, true);
                out.append(", but calculated 0x");
                push_hex(&mut out, *calculated as u64, 2, true);
                out
            },
            ParseError::PayloadTooLarge { size, max } => {
                let mut out = String::from_str("Payload too large: ");
                push_decimal(&mut out, *size as u64);
                out.append(" bytes (maximum ");
                push_decimal(&mut out, *max as u64);
                out.append(" allowed)");
                out
            },
        }
    }
}

/// Writes bytes as two-digit upper-case hexadecimal numbers with blanks
/// between.
pub fn hex_encode(bytes: &[u8]) -> (text: String)
    ensures
        text@ == hex_encoded(bytes@),
{
    let mut out = String::new();
    let mut i: usize = 0;
    assert(bytes@.take(0) =~= Seq::<u8>::empty());
    while i < bytes.len()
        invariant
            i <= bytes@.len(),
            out@ == hex_encoded(bytes@.take(i as int)),
        decreases bytes@.len() - i,
    {
        if i > 0 {
            out.push(' ');
        }
        push_hex(&mut out, bytes[i] as u64, 2, true);
        proof {
            let next = bytes@.take(i + 1);
            assert(next.drop_last() =~= bytes@.take(i as int));
            assert(next.last() == bytes@[i as int]);
            if i == 0 {
                assert(out@ =~= hex_text(bytes@[0] as nat, 2, true));
            }
        }
        i = i + 1;
    }
    assert(bytes@.take(i as int) =~= bytes@);
    out
}

} // verus!
