//! The back-end's error taxonomy.  Transient device errors disable the
//! back-end for the session; a deferred overflow only skips one frame.

use vstd::prelude::*;

verus! {

/// Why a render call failed.
#[derive(Clone, Copy, PartialEq, Eq, Structural, Debug)]
pub enum MetalRenderError {
    /// The back-end was disabled earlier in the session.
    GpuDisabled,
    /// A device wait passed its deadline.
    Timeout { timeout_ms: u64 },
    /// A submitted command buffer came back failed.
    CommandBufferFailed,
    /// The sort buffers overflowed twice in one frame; they have been grown
    /// and the next frame should retry.
    OverflowDeferred { requested_capacity: usize, overlaps: u32 },
    /// No scene has been uploaded.
    NotUploaded,
    /// More splats were submitted than the back-end was sized for.
    TooManySplats,
    /// A buffer size computation left the supported range.
    SizeOverflow,
    /// The screen needs more tiles than the key's 10-bit tile id can name.
    TileCountExceeded,
}

impl MetalRenderError {
    /// Whether this error must disable the back-end for the session:
    /// exactly the transient device failures, not scene or size errors.
    pub fn should_disable_gpu(&self) -> (r: bool)
        ensures
            r == (self is GpuDisabled || self is Timeout || self is CommandBufferFailed),
    {
        match self {
            MetalRenderError::GpuDisabled => true,
            MetalRenderError::Timeout { .. } => true,
            MetalRenderError::CommandBufferFailed => true,
            _ => false,
        }
    }
}

} // verus!
