//! The tile-based back-end: the same pipeline as the per-splat rasterizer,
//! expressed as the kernel sequence a data-parallel device would run — tile
//! binning, prefix scan, key emission, radix sort, and per-tile blending —
//! with on-line sort-buffer growth and an overflow retry.

pub mod buffers;
pub mod error;
pub mod raster;
pub mod render;
pub mod sort;

use vstd::prelude::*;

use crate::splat::{splat_wf, Splat};

use error::MetalRenderError;

verus! {

/// Largest splat count the back-end accepts (indices must fit the 32-bit
/// sort values).
pub const MAX_SPLAT_COUNT: usize = 0xFFF_FFFF;

/// The back-end's persistent state: the uploaded scene, the packed
/// framebuffer, and the capacities of the transient working buffers, which
/// grow on demand and shrink only after sustained low use.
pub struct MetalBackend {
    pub splats: Vec<Splat>,
    pub framebuffer: Vec<u32>,
    pub max_splats: usize,
    pub tile_capacity: usize,
    pub sort_capacity: usize,
    pub histogram_capacity: usize,
    pub block_sums_capacity: usize,
    pub framebuffer_capacity_pixels: usize,
    pub splats_uploaded: bool,
    pub previous_total_overlaps: u32,
    pub frames_below_threshold: u32,
    pub gpu_disabled: bool,
    pub last_render_width: usize,
    pub last_render_height: usize,
}

/// The invariant every back-end operation preserves.
pub open spec fn backend_wf(b: MetalBackend) -> bool {
    &&& b.framebuffer.len() == b.framebuffer_capacity_pixels
    &&& b.max_splats <= MAX_SPLAT_COUNT
    &&& b.splats.len() <= b.max_splats
    &&& forall|i: int| 0 <= i < b.splats.len() ==> splat_wf(#[trigger] b.splats@[i])
    &&& 1 <= b.tile_capacity
    &&& 1 <= b.sort_capacity <= crate::metal::buffers::CAPACITY_LIMIT
    &&& 1 <= b.histogram_capacity
    &&& 1 <= b.block_sums_capacity
    &&& b.last_render_width * b.last_render_height <= b.framebuffer_capacity_pixels
}

impl MetalBackend {
    /// Creates a back-end sized for at most `max_splats` scene splats.
    pub fn new(max_splats: usize) -> (r: Result<MetalBackend, MetalRenderError>)
        ensures
            r is Ok <==> max_splats <= MAX_SPLAT_COUNT,
            r is Ok ==> {
                let b = r->Ok_0;
                backend_wf(b) && b.max_splats == max_splats && !b.splats_uploaded
                    && !b.gpu_disabled && b.sort_capacity == 1 && b.tile_capacity == 1
                    && b.histogram_capacity == 1 && b.block_sums_capacity == 1
                    && b.framebuffer_capacity_pixels == 1 && b.previous_total_overlaps == 0
                    && b.frames_below_threshold == 0 && b.splats.len() == 0
                    && b.last_render_width == 0 && b.last_render_height == 0
            },
    {
        if max_splats > MAX_SPLAT_COUNT {
            return Err(MetalRenderError::SizeOverflow);
        }
        let mut framebuffer: Vec<u32> = Vec::new();
        framebuffer.push(0);
        Ok(
            MetalBackend {
                splats: Vec::new(),
                framebuffer,
                max_splats,
                tile_capacity: 1,
                sort_capacity: 1,
                histogram_capacity: 1,
                block_sums_capacity: 1,
                framebuffer_capacity_pixels: 1,
                splats_uploaded: false,
                previous_total_overlaps: 0,
                frames_below_threshold: 0,
                gpu_disabled: false,
                last_render_width: 0,
                last_render_height: 0,
            },
        )
    }

    /// Uploads the scene.  Fails when it exceeds the configured capacity.
    pub fn upload_splats(&mut self, splats: &Vec<Splat>) -> (r: Result<(), MetalRenderError>)
        requires
            backend_wf(*old(self)),
            forall|i: int| 0 <= i < splats.len() ==> splat_wf(#[trigger] splats@[i]),
        ensures
            backend_wf(*final(self)),
            r is Ok <==> splats.len() <= old(self).max_splats,
            r is Ok ==> final(self).splats@ == splats@ && final(self).splats_uploaded,
            r is Err ==> *final(self) == *old(self),
            final(self).max_splats == old(self).max_splats,
            final(self).sort_capacity == old(self).sort_capacity,
    {
        if splats.len() > self.max_splats {
            return Err(MetalRenderError::TooManySplats);
        }
        let n = splats.len();
        let mut copy: Vec<Splat> = Vec::new();
        let mut i: usize = 0;
        while i < n
            invariant
                i <= n,
                n == splats.len(),
                copy@ == splats@.take(i as int),
            decreases n - i,
        {
            copy.push(splats[i]);
            proof {
                assert(copy@ =~= splats@.take(i + 1));
            }
            i = i + 1;
        }
        proof {
            assert(splats@.take(n as int) =~= splats@);
        }
        self.splats = copy;
        self.splats_uploaded = true;
        Ok(())
    }

    /// Whether a scene has been uploaded and the back-end can render.
    pub fn is_ready(&self) -> (r: bool)
        ensures
            r == self.splats_uploaded,
    {
        self.splats_uploaded
    }

    /// Zeroes the pixels of the given screen area.
    pub fn clear_framebuffer(&mut self, screen_width: usize, screen_height: usize)
        requires
            backend_wf(*old(self)),
            screen_width * screen_height <= old(self).framebuffer_capacity_pixels,
        ensures
            backend_wf(*final(self)),
            *final(self) == (MetalBackend {
                framebuffer: final(self).framebuffer,
                ..*old(self)
            }),
            final(self).framebuffer.len() == old(self).framebuffer.len(),
            forall|i: int|
                0 <= i < final(self).framebuffer.len() ==> #[trigger] final(self).framebuffer@[i] == 0,
    {
        let len = self.framebuffer.len();
        let mut fb: Vec<u32> = Vec::new();
        let mut i: usize = 0;
        while i < len
            invariant
                i <= len,
                fb.len() == i,
                forall|k: int| 0 <= k < i ==> #[trigger] fb@[k] == 0,
            decreases len - i,
        {
            fb.push(0);
            i = i + 1;
        }
        self.framebuffer = fb;
    }

    /// A copy of the pixels of the most recent render.
    pub fn framebuffer_slice(&self) -> (r: Vec<u32>)
        requires
            backend_wf(*self),
        ensures
            r@ == self.framebuffer@.take(
                (self.last_render_width * self.last_render_height) as int,
            ),
    {
        let count = self.last_render_width * self.last_render_height;
        let mut out: Vec<u32> = Vec::new();
        let mut i: usize = 0;
        while i < count
            invariant
                i <= count,
                count <= self.framebuffer.len(),
                out@ == self.framebuffer@.take(i as int),
            decreases count - i,
        {
            out.push(self.framebuffer[i]);
            proof {
                assert(out@ =~= self.framebuffer@.take(i + 1));
            }
            i = i + 1;
        }
        out
    }
}

} // verus!
