//! Capture on Napatech adapters: configuration, status codes and the
//! decisions around the driver calls. The driver itself is called by the
//! caller, who hands its answers in.

use crate::error::CaptureError;
use crate::text::{decimal_text, push_decimal, push_signed_decimal, signed_decimal_text};
use crate::types::CaptureStats;
use vstd::prelude::*;
use vstd::string::StringExecFns;

verus! {

/// Highest port number of an adapter.
pub const MAX_PORT_ID: u32 = 255;

/// Highest stream number.
pub const MAX_STREAM_ID: u32 = 63;

/// Most bytes taken from one captured packet.
pub const MAX_CAPTURED_LENGTH: u32 = 65535;

/// Status of a driver call.
#[derive(Debug, Clone, Copy, PartialEq, Eq, Structural)]
pub enum NtStatus {
    Success,
    Fail,
    /// More data is available.
    MoreData,
    /// No more data is available.
    Done,
    /// A parameter was wrong.
    ParamError,
}

impl NtStatus {
    /// The number that the driver uses for the status.
    pub open spec fn spec_code(self) -> i32 {
        match self {
            NtStatus::Success => 0i32,
            NtStatus::Fail => -1i32,
            NtStatus::MoreData => 1i32,
            NtStatus::Done => 2i32,
            NtStatus::ParamError => -2i32,
        }
    }

    /// The number that the driver uses for the status.
    pub fn code(self) -> (c: i32)
        ensures
            c == self.spec_code(),
    {
        match self {
            NtStatus::Success => 0,
            NtStatus::Fail => -1,
            NtStatus::MoreData => 1,
            NtStatus::Done => 2,
            NtStatus::ParamError => -2,
        }
    }

    /// The status with the given number, if the number names one.
    pub fn from_code(code: i32) -> (s: Option<NtStatus>)
        ensures
            match s {
                Some(status) => status.spec_code() == code,
                None => forall|status: NtStatus| status.spec_code() != code,
            },
    {
        if code == 0 {
            Some(NtStatus::Success)
        } else if code == -1 {
            Some(NtStatus::Fail)
        } else if code == 1 {
            Some(NtStatus::MoreData)
        } else if code == 2 {
            Some(NtStatus::Done)
        } else if code == -2 {
            Some(NtStatus::ParamError)
        } else {
            None
        }
    }

    /// Whether the call succeeded.
    pub fn is_success(self) -> (b: bool)
        ensures
            b == (self == NtStatus::Success),
    {
        self == NtStatus::Success
    }

    /// Whether the call reports that no more data is available.
    pub fn is_done(self) -> (b: bool)
        ensures
            b == (self == NtStatus::Done),
    {
        self == NtStatus::Done
    }
}

/// Handle of a packet buffer of the driver.
pub struct NtNetBuf {
    pub h_packet: u64,
}

/// Receive counters of the driver.
#[derive(Debug, Clone, Copy)]
pub struct NtNetRxStat {
    pub rx_packets: u64,
    pub rx_bytes: u64,
    pub rx_errors: u64,
    pub rx_drops: u64,
}

/// What the driver says of one packet.
pub struct NtPacketDescriptor {
    pub length: u32,
    pub cap_length: u32,
    pub timestamp: u64,
    pub color: u32,
}

/// What a read from the driver means.
#[derive(Debug, Clone, Copy, PartialEq, Eq, Structural)]
pub enum ReadOutcome {
    /// A packet is ready.
    Packet,
    /// Nothing for now.
    NoPacket,
}

/// An open stream on a Napatech adapter.
pub struct NapatechCapture {
    net_rx_handle: i32,
    port_id: u32,
    stream_id: u32,
    packets_read: u64,
    initialized: bool,
}

/// The message for a port number out of range.
pub open spec fn invalid_port_text(port_id: u32) -> Seq<char> {
    "Invalid Napatech port ID: "@ + decimal_text(port_id as nat)
}

/// The message for a stream number out of range.
pub open spec fn invalid_stream_text(stream_id: u32) -> Seq<char> {
    "Invalid Napatech stream ID: "@ + decimal_text(stream_id as nat) + " (must be 0-63)"@
}

/// The message for a stream that the driver did not open.
pub open spec fn open_failed_text(port_id: u32, stream_id: u32, status: i32) -> Seq<char> {
    "NT_NetRxOpen failed for port "@ + decimal_text(port_id as nat) + " stream "@ + decimal_text(
        stream_id as nat,
    ) + " with status "@ + signed_decimal_text(status as int)
}

/// The message for a failed driver call named `call`.
pub open spec fn call_failed_text(call: Seq<char>, status: i32) -> Seq<char> {
    call + " failed with status "@ + signed_decimal_text(status as int)
}

/// The error for a failed driver call named `call`.
fn call_failed(call: &str, status: i32) -> (text: String)
    ensures
        text@ == call_failed_text(call@, status),
{
    let mut text = String::from_str(call);
    text.append(" failed with status ");
    push_signed_decimal(&mut text, status as i64);
    text
}

impl NapatechCapture {
    pub closed spec fn spec_port_id(&self) -> u32 {
        self.port_id
    }

    pub closed spec fn spec_stream_id(&self) -> u32 {
        self.stream_id
    }

    pub closed spec fn spec_packets_read(&self) -> u64 {
        self.packets_read
    }

    pub closed spec fn spec_handle(&self) -> i32 {
        self.net_rx_handle
    }

    pub closed spec fn spec_initialized(&self) -> bool {
        self.initialized
    }

    /// Checks port and stream number before the driver is touched.
    pub fn check_ids(port_id: u32, stream_id: u32) -> (r: Result<(), CaptureError>)
        ensures
            match r {
                Ok(()) => port_id <= 255 && stream_id <= 63,
                Err(CaptureError::OpenFailed(text)) => if port_id > 255 {
                    text@ == invalid_port_text(port_id)
                } else {
                    stream_id > 63 && text@ == invalid_stream_text(stream_id)
                },
                Err(_) => false,
            },
    {
        if port_id > MAX_PORT_ID {
            let mut text = String::from_str("Invalid Napatech port ID: ");
            push_decimal(&mut text, port_id as u64);
            return Err(CaptureError::OpenFailed(text));
        }
        if stream_id > MAX_STREAM_ID {
            let mut text = String::from_str("Invalid Napatech stream ID: ");
            push_decimal(&mut text, stream_id as u64);
            text.append(" (must be 0-63)");
            return Err(CaptureError::OpenFailed(text));
        }
        Ok(())
    }

    /// Checks the status with which the driver was initialised.
    pub fn check_init(init_status: i32) -> (r: Result<(), CaptureError>)
        ensures
            match r {
                Ok(()) => init_status == 0,
                Err(CaptureError::OpenFailed(text)) => init_status != 0 && text@
                    == call_failed_text("NT_Init"@, init_status),
                Err(_) => false,
            },
    {
        if init_status != 0 {
            return Err(CaptureError::OpenFailed(call_failed("NT_Init", init_status)));
        }
        Ok(())
    }

    /// The capture on the stream that the driver opened with the handle
    /// `net_rx_handle`; a negative handle is the driver's refusal.
    pub fn open(port_id: u32, stream_id: u32, net_rx_handle: i32) -> (r: Result<
        NapatechCapture,
        CaptureError,
    >)
        ensures
            match r {
                Ok(capture) => port_id <= 255 && stream_id <= 63 && net_rx_handle >= 0
                    && capture.spec_port_id() == port_id && capture.spec_stream_id() == stream_id
                    && capture.spec_handle() == net_rx_handle && capture.spec_packets_read() == 0
                    && capture.spec_initialized(),
                Err(CaptureError::OpenFailed(text)) => if port_id > 255 {
                    text@ == invalid_port_text(port_id)
                } else if stream_id > 63 {
                    text@ == invalid_stream_text(stream_id)
                } else {
                    net_rx_handle < 0 && text@ == open_failed_text(
                        port_id,
                        stream_id,
                        net_rx_handle,
                    )
                },
                Err(_) => false,
            },
    {
        match Self::check_ids(port_id, stream_id) {
            Ok(()) => {},
            Err(e) => {
                return Err(e);
            },
        }
        if net_rx_handle < 0 {
            let mut text = String::from_str("NT_NetRxOpen failed for port ");
            push_decimal(&mut text, port_id as u64);
            text.append(" stream ");
            push_decimal(&mut text, stream_id as u64);
            text.append(" with status ");
            push_signed_decimal(&mut text, net_rx_handle as i64);
            return Err(CaptureError::OpenFailed(text));
        }
        Ok(
            NapatechCapture {
                net_rx_handle,
                port_id,
                stream_id,
                packets_read: 0,
                initialized: true,
            },
        )
    }

    /// Checks the status with which the driver took an attribute.
    pub fn check_attribute_status(&self, status: i32) -> (r: Result<(), CaptureError>)
        ensures
            match r {
                Ok(()) => self.spec_initialized() && status == 0,
                Err(CaptureError::OpenFailed(text)) => if !self.spec_initialized() {
                    text@ == "Capture not initialized"@
                } else {
                    status != 0 && text@ == call_failed_text("NT_NetRxSetAttribute"@, status)
                },
                Err(_) => false,
            },
    {
        if !self.initialized {
            return Err(CaptureError::OpenFailed(String::from_str("Capture not initialized")));
        }
        if status != 0 {
            return Err(CaptureError::OpenFailed(call_failed("NT_NetRxSetAttribute", status)));
        }
        Ok(())
    }

    /// What the status of a read means: 0 is a packet, 1 and 2 are no
    /// packet for now, anything else is a failure.
    pub fn classify_read(&self, status: i32) -> (r: Result<ReadOutcome, CaptureError>)
        ensures
            match r {
                Ok(ReadOutcome::Packet) => self.spec_initialized() && status == 0,
                Ok(ReadOutcome::NoPacket) => self.spec_initialized() && (status == 1 || status
                    == 2),
                Err(CaptureError::OpenFailed(text)) => !self.spec_initialized() && text@
                    == "Capture not initialized"@,
                Err(CaptureError::ReadFailed(text)) => self.spec_initialized() && status != 0
                    && status != 1 && status != 2 && text@ == call_failed_text(
                    "NT_NetRxRead"@,
                    status,
                ),
                Err(_) => false,
            },
    {
        if !self.initialized {
            return Err(CaptureError::OpenFailed(String::from_str("Capture not initialized")));
        }
        if status == 0 {
            Ok(ReadOutcome::Packet)
        } else if status == 1 || status == 2 {
            Ok(ReadOutcome::NoPacket)
        } else {
            Err(CaptureError::ReadFailed(call_failed("NT_NetRxRead", status)))
        }
    }

    /// Number of bytes to take from a packet of which the driver captured
    /// `cap_length` bytes: at most 65535.
    pub fn captured_length(cap_length: u32) -> (n: usize)
        ensures
            n == if cap_length < 65535 {
                cap_length as int
            } else {
                65535
            },
    {
        if cap_length < MAX_CAPTURED_LENGTH {
            cap_length as usize
        } else {
            MAX_CAPTURED_LENGTH as usize
        }
    }

    /// Counts one packet read.
    pub fn count_packet(&mut self)
        requires
            old(self).spec_packets_read() < u64::MAX,
        ensures
            final(self).spec_packets_read() == old(self).spec_packets_read() + 1,
            final(self).spec_port_id() == old(self).spec_port_id(),
            final(self).spec_stream_id() == old(self).spec_stream_id(),
            final(self).spec_handle() == old(self).spec_handle(),
            final(self).spec_initialized() == old(self).spec_initialized(),
    {
        self.packets_read = self.packets_read + 1;
    }

    /// The capture's counters: the driver's, if it could be asked (status
    /// 0), else the capture's own count; all zero before initialisation.
    pub fn stats(&self, status: i32, driver: &NtNetRxStat) -> (s: CaptureStats)
        ensures
            s.packets_received == if !self.spec_initialized() {
                0
            } else if status == 0 {
                driver.rx_packets
            } else {
                self.spec_packets_read()
            },
            s.packets_dropped == if self.spec_initialized() && status == 0 {
                driver.rx_drops
            } else {
                0
            },
    {
        if !self.initialized {
            CaptureStats { packets_received: 0, packets_dropped: 0 }
        } else if status == 0 {
            CaptureStats { packets_received: driver.rx_packets, packets_dropped: driver.rx_drops }
        } else {
            CaptureStats { packets_received: self.packets_read, packets_dropped: 0 }
        }
    }

    /// The adapter port.
    pub fn port_id(&self) -> (id: u32)
        ensures
            id == self.spec_port_id(),
    {
        self.port_id
    }

    /// The stream.
    pub fn stream_id(&self) -> (id: u32)
        ensures
            id == self.spec_stream_id(),
    {
        self.stream_id
    }

    /// Number of packets read.
    pub fn packets_read(&self) -> (n: u64)
        ensures
            n == self.spec_packets_read(),
    {
        self.packets_read
    }

    /// The driver's handle of the stream.
    pub fn handle(&self) -> (h: i32)
        ensures
            h == self.spec_handle(),
    {
        self.net_rx_handle
    }
}

/// How a Napatech capture is set up.
#[derive(Clone, Debug)]
pub struct NapatechConfig {
    pub port_id: u32,
    pub stream_id: u32,
    /// Whether the frame check sequence is captured too.
    pub capture_crc: bool,
    pub capture_mode: NapatechCaptureMode,
}

/// What a Napatech capture takes.
#[derive(Clone, Debug, PartialEq)]
pub enum NapatechCaptureMode {
    AllPackets,
    KeyFilter { l3_protocol: Option<u8>, l4_protocol: Option<u8> },
    PatternMatch { pattern: String },
}

/// Counters of a Napatech capture.
#[derive(Clone, Debug)]
pub struct NapatechStats {
    pub packets_received: u64,
    pub packets_dropped: u64,
    pub bytes_received: u64,
    pub errors: u64,
}

impl Default for NapatechConfig {
    fn default() -> (c: NapatechConfig)
        ensures
            c.port_id == 0,
            c.stream_id == 0,
            !c.capture_crc,
            c.capture_mode is AllPackets,
    {
        NapatechConfig {
            port_id: 0,
            stream_id: 0,
            capture_crc: false,
            capture_mode: NapatechCaptureMode::AllPackets,
        }
    }
}

impl NapatechConfig {
    /// Port 0, stream 0, no CRC, all packets.
    pub fn new() -> (c: NapatechConfig)
        ensures
            c.port_id == 0,
            c.stream_id == 0,
            !c.capture_crc,
            c.capture_mode is AllPackets,
    {
        NapatechConfig::default()
    }

    /// The same configuration on another port.
    pub fn with_port(self, port_id: u32) -> (c: NapatechConfig)
        ensures
            c.port_id == port_id,
            c.stream_id == self.stream_id,
            c.capture_crc == self.capture_crc,
            c.capture_mode == self.capture_mode,
    {
        let mut c = self;
        c.port_id = port_id;
        c
    }

    /// The same configuration on another stream.
    pub fn with_stream(self, stream_id: u32) -> (c: NapatechConfig)
        ensures
            c.port_id == self.port_id,
            c.stream_id == stream_id,
            c.capture_crc == self.capture_crc,
            c.capture_mode == self.capture_mode,
    {
        let mut c = self;
        c.stream_id = stream_id;
        c
    }

    /// The same configuration with CRC capture switched on or off.
    pub fn with_crc(self, capture: bool) -> (c: NapatechConfig)
        ensures
            c.port_id == self.port_id,
            c.stream_id == self.stream_id,
            c.capture_crc == capture,
            c.capture_mode == self.capture_mode,
    {
        let mut c = self;
        c.capture_crc = capture;
        c
    }

    /// The same configuration with another capture mode.
    pub fn with_capture_mode(self, mode: NapatechCaptureMode) -> (c: NapatechConfig)
        ensures
            c.port_id == self.port_id,
            c.stream_id == self.stream_id,
            c.capture_crc == self.capture_crc,
            c.capture_mode == mode,
    {
        let mut c = self;
        c.capture_mode = mode;
        c
    }
}

} // verus!
