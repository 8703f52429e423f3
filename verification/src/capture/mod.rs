//! Capture sources: the interface that the analyzer reads packets
//! through, and the decisions of the sources that can be stated without
//! touching a device.

pub mod af_packet;
pub mod napatech;
pub mod replay;
pub mod source;
pub mod xdp;

pub use af_packet::AfPacketCapture;
pub use napatech::{NapatechCapture, NapatechCaptureMode, NapatechConfig, NapatechStats};
pub use replay::{ReplayCapture, ReplayMode, ReplayStats};
pub use source::PacketSource;
pub use xdp::XdpCapture;
