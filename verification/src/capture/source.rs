//! The interface of a packet source.

use crate::error::CaptureError;
use crate::types::{CaptureStats, RawPacket};
use vstd::prelude::*;
use vstd::string::StringExecFns;

verus! {

/// A source of captured packets: a file, a live interface, a replay.
///
/// `Ok(Some(p))` is a packet, `Ok(None)` a benign boundary such as a read
/// timeout, `Err(NoMorePackets)` the end of the stream; any other error is
/// terminal. Nothing is promised of what a source returns.
pub trait PacketSource {
    /// The next packet of the source.
    fn next_packet(&mut self) -> Result<Option<RawPacket>, CaptureError>;

    /// The source's counters.
    fn stats(&self) -> CaptureStats;
}

/// The answer of a source that cannot filter: an
/// `UnsupportedOperation` error.
pub fn filter_unsupported() -> (r: Result<(), CaptureError>)
    ensures
        r matches Err(CaptureError::UnsupportedOperation(text)) && text@
            == "BPF filtering not supported by this source"@,
{
    Err(
        CaptureError::UnsupportedOperation(
            String::from_str("BPF filtering not supported by this source"),
        ),
    )
}

} // verus!
