//! The ring of an AF_PACKET capture: its geometry and the walk over its
//! blocks. The socket itself is the caller's business.

use crate::error::CaptureError;
use vstd::prelude::*;
use vstd::string::{StringExecFns, StringSliceAdditionalSpecFns};

verus! {

/// Size of one block of the ring in bytes.
pub const RING_BLOCK_SIZE: u32 = 1024 * 1024;

/// Size of one frame of the ring in bytes.
pub const RING_FRAME_SIZE: u32 = 4096;

/// Milliseconds after which the kernel retires a block.
pub const RING_RETIRE_TIMEOUT_MS: u32 = 60;

/// Longest interface name, with its terminator.
pub const INTERFACE_NAME_SIZE: usize = 16;

/// Largest ring, in mebibytes, whose frame count fits the kernel's
/// 32-bit fields.
pub const MAX_RING_SIZE_MB: usize = 4095;

/// What the kernel is asked for when the ring is set up.
#[derive(Debug, Clone, Copy, PartialEq, Eq, Structural)]
pub struct RingGeometry {
    pub block_size: u32,
    pub block_count: u32,
    pub frame_size: u32,
    pub frame_count: u32,
    pub retire_timeout_ms: u32,
    /// Bytes to map: all blocks.
    pub ring_bytes: usize,
}

/// A capture on an AF_PACKET ring.
pub struct AfPacketCapture {
    geometry: RingGeometry,
    current_block: u32,
    packets_read: u64,
    packets_dropped: u64,
}

impl AfPacketCapture {
    /// The geometry of a ring of `ring_size_mb` mebibytes: blocks of one
    /// mebibyte, frames of four kibibytes.
    pub open spec fn spec_geometry(ring_size_mb: usize) -> RingGeometry {
        RingGeometry {
            block_size: 0x10_0000u32,
            block_count: ring_size_mb as u32,
            frame_size: 4096u32,
            frame_count: (ring_size_mb * 256) as u32,
            retire_timeout_ms: 60u32,
            ring_bytes: (ring_size_mb * 0x10_0000) as usize,
        }
    }

    /// Whether a ring of `ring_size_mb` mebibytes can be made for an
    /// interface whose name has `name_bytes` bytes: the name fits the
    /// kernel's field, and the ring has at least one block and no more
    /// than 4095.
    pub open spec fn spec_accepts(name_bytes: nat, ring_size_mb: usize) -> bool {
        name_bytes < 16 && 1 <= ring_size_mb <= 4095
    }

    /// The block that the capture reads next.
    pub closed spec fn current_block(&self) -> u32 {
        self.current_block
    }

    /// The ring's geometry.
    pub closed spec fn geometry(&self) -> RingGeometry {
        self.geometry
    }

    /// Packets read so far.
    pub closed spec fn packets_read(&self) -> u64 {
        self.packets_read
    }

    /// The capture's consistency: the geometry is that of a ring of one
    /// to 4095 blocks, and the cursor is inside the ring.
    pub closed spec fn wf(&self) -> bool {
        &&& 1 <= self.geometry.block_count <= 4095
        &&& self.geometry == Self::spec_geometry(self.geometry.block_count as usize)
        &&& self.current_block < self.geometry.block_count
    }

    /// Plans the ring for a capture on `interface`.
    ///
    /// Fails with `AfPacketError` if the interface name has 16 bytes or
    /// more, or if the ring would have no block or more than 4095.
    pub fn open(interface: &str, ring_size_mb: usize) -> (r: Result<AfPacketCapture, CaptureError>)
        ensures
            match r {
                Ok(capture) => Self::spec_accepts(interface.spec_bytes().len(), ring_size_mb) && capture.wf()
                    && capture.geometry() == Self::spec_geometry(ring_size_mb)
                    && capture.current_block() == 0 && capture.packets_read() == 0,
                Err(CaptureError::AfPacketError(text)) => if interface.spec_bytes().len() >= 16 {
                    text@ == "Interface name too long"@
                } else {
                    !(1 <= ring_size_mb <= 4095) && text@
                        == "Ring size must be between 1 and 4095 MB"@
                },
                Err(_) => false,
            },
    {
        if interface.as_bytes().len() >= INTERFACE_NAME_SIZE {
            return Err(CaptureError::AfPacketError(String::from_str("Interface name too long")));
        }
        if ring_size_mb < 1 || ring_size_mb > MAX_RING_SIZE_MB {
            return Err(
                CaptureError::AfPacketError(
                    String::from_str("Ring size must be between 1 and 4095 MB"),
                ),
            );
        }
        let geometry = RingGeometry {
            block_size: RING_BLOCK_SIZE,
            block_count: ring_size_mb as u32,
            frame_size: RING_FRAME_SIZE,
            frame_count: (ring_size_mb * 256) as u32,
            retire_timeout_ms: RING_RETIRE_TIMEOUT_MS,
            ring_bytes: ring_size_mb * 1024 * 1024,
        };
        Ok(AfPacketCapture { geometry, current_block: 0, packets_read: 0, packets_dropped: 0 })
    }

    /// Byte offset of the current block in the ring.
    pub fn block_offset(&self) -> (offset: usize)
        requires
            self.wf(),
        ensures
            offset == self.current_block() * 1024 * 1024,
            offset < self.geometry().ring_bytes,
    {
        self.current_block as usize * 1024 * 1024
    }

    /// Counts a packet and moves on to the next block, around the ring.
    pub fn advance(&mut self)
        requires
            old(self).wf(),
            old(self).packets_read() < u64::MAX,
        ensures
            final(self).wf(),
            final(self).geometry() == old(self).geometry(),
            final(self).packets_read() == old(self).packets_read() + 1,
            final(self).current_block() == (old(self).current_block() + 1) % (
            old(self).geometry().block_count as int),
    {
        self.packets_read = self.packets_read + 1;
        self.current_block = ((self.current_block as u64 + 1) % (
        self.geometry.block_count as u64)) as u32;
    }
}

} // verus!
