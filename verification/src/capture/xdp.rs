//! XDP capture, which is not available yet.

use crate::error::CaptureError;
use vstd::prelude::*;
use vstd::string::StringExecFns;

verus! {

/// Capture through an AF_XDP socket.
pub struct XdpCapture {
    pub interface: String,
}

impl XdpCapture {
    /// Always fails with `XdpNotAvailable`: no interface can be opened.
    pub fn open(_interface: &str) -> (r: Result<XdpCapture, CaptureError>)
        ensures
            r matches Err(CaptureError::XdpNotAvailable(text)) && text@
                == "XDP support requires kernel 4.18+, libbpf, and XDP-capable NIC driver"@,
    {
        Err(
            CaptureError::XdpNotAvailable(
                String::from_str(
                    "XDP support requires kernel 4.18+, libbpf, and XDP-capable NIC driver",
                ),
            ),
        )
    }
}

} // verus!
