//! Error taxonomy shared by capture sources, parsers and the analyzer.

use vstd::prelude::*;
use vstd::string::StringExecFns;

verus! {

/// Failures of a capture source.
#[derive(Debug)]
pub enum CaptureError {
    OpenFailed(String),
    ReadFailed(String),
    NoMorePackets,
    UnsupportedOperation(String),
    XdpNotAvailable(String),
    AfPacketError(String),
    DatabaseError(String),
}

/// Failures of a protocol parser on a frame that matched its framing.
#[derive(Debug)]
pub enum ParseError {
    PacketTooShort,
    InvalidFormat(String),
}

/// Anything that can stop an analysis run.
#[derive(Debug)]
pub enum AnalysisError {
    Capture(CaptureError),
    Parse(ParseError),
}

/// The sentence that describes a capture error.
pub open spec fn capture_error_text(e: CaptureError) -> Seq<char> {
    match e {
        CaptureError::OpenFailed(detail) => "Failed to open capture: "@ + detail@,
        CaptureError::ReadFailed(detail) => "Failed to read packet: "@ + detail@,
        CaptureError::NoMorePackets => "No more packets"@,
        CaptureError::UnsupportedOperation(detail) => "Unsupported operation: "@ + detail@,
        CaptureError::XdpNotAvailable(detail) => "XDP not available: "@ + detail@,
        CaptureError::AfPacketError(detail) => "AF_PACKET error: "@ + detail@,
        CaptureError::DatabaseError(detail) => "Database error: "@ + detail@,
    }
}

/// The sentence that describes a parse error.
pub open spec fn parse_error_text(e: ParseError) -> Seq<char> {
    match e {
        ParseError::PacketTooShort => "Packet too short for protocol"@,
        ParseError::InvalidFormat(detail) => "Invalid protocol format: "@ + detail@,
    }
}

/// The sentence that describes an analysis error.
pub open spec fn analysis_error_text(e: AnalysisError) -> Seq<char> {
    match e {
        AnalysisError::Capture(inner) => "Capture error: "@ + capture_error_text(inner),
        AnalysisError::Parse(inner) => "Parse error: "@ + parse_error_text(inner),
    }
}

impl CaptureError {
    /// The error in words.
    pub fn to_string(&self) -> (text: String)
        ensures
            text@ == capture_error_text(*self),
    {
        match self {
            CaptureError::OpenFailed(detail) => String::from_str("Failed to open capture: ").concat(
                detail.as_str(),
            ),
            CaptureError::ReadFailed(detail) => String::from_str("Failed to read packet: ").concat(
                detail.as_str(),
            ),
            CaptureError::NoMorePackets => String::from_str("No more packets"),
            CaptureError::UnsupportedOperation(detail) => String::from_str(
                "Unsupported operation: ",
            ).concat(detail.as_str()),
            CaptureError::XdpNotAvailable(detail) => String::from_str("XDP not available: ").concat(
                detail.as_str(),
            ),
            CaptureError::AfPacketError(detail) => String::from_str("AF_PACKET error: ").concat(
                detail.as_str(),
            ),
            CaptureError::DatabaseError(detail) => String::from_str("Database error: ").concat(
                detail.as_str(),
            ),
        }
    }

    /// Whether the error is the graceful end of a stream.
    pub fn is_end_of_stream(&self) -> (b: bool)
        ensures
            b == (*self is NoMorePackets),
    {
        match self {
            CaptureError::NoMorePackets => true,
            _ => false,
        }
    }
}

impl ParseError {
    /// The error in words.
    pub fn to_string(&self) -> (text: String)
        ensures
            text@ == parse_error_text(*self),
    {
        match self {
            ParseError::PacketTooShort => String::from_str("Packet too short for protocol"),
            ParseError::InvalidFormat(detail) => String::from_str(
                "Invalid protocol format: ",
            ).concat(detail.as_str()),
        }
    }
}

impl AnalysisError {
    /// The error in words.
    pub fn to_string(&self) -> (text: String)
        ensures
            text@ == analysis_error_text(*self),
    {
        match self {
            AnalysisError::Capture(inner) => {
                let detail = inner.to_string();
                String::from_str("Capture error: ").concat(detail.as_str())
            },
            AnalysisError::Parse(inner) => {
                let detail = inner.to_string();
                String::from_str("Parse error: ").concat(detail.as_str())
            },
        }
    }
}

impl From<CaptureError> for AnalysisError {
    fn from(e: CaptureError) -> (r: AnalysisError) {
        AnalysisError::Capture(e)
    }
}

impl vstd::std_specs::convert::FromSpecImpl<CaptureError> for AnalysisError {
    open spec fn obeys_from_spec() -> bool {
        true
    }

    open spec fn from_spec(e: CaptureError) -> AnalysisError {
        AnalysisError::Capture(e)
    }
}

impl From<ParseError> for AnalysisError {
    fn from(e: ParseError) -> (r: AnalysisError) {
        AnalysisError::Parse(e)
    }
}

impl vstd::std_specs::convert::FromSpecImpl<ParseError> for AnalysisError {
    open spec fn obeys_from_spec() -> bool {
        true
    }

    open spec fn from_spec(e: ParseError) -> AnalysisError {
        AnalysisError::Parse(e)
    }
}

} // verus!
