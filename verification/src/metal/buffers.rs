//! On-line buffer sizing: overlap counts are data-dependent, so the sort
//! buffers grow on demand (to the next power of two), keep headroom, and
//! shrink only after sixty consecutive frames of low use.

use vstd::prelude::*;

use crate::metal::error::MetalRenderError;
use crate::metal::MetalBackend;

verus! {

/// Capacity cap: capacities stay below 2^62, so doubling cannot overflow.
pub const CAPACITY_LIMIT: usize = 0x4000_0000;

/// How many consecutive low-use frames trigger a shrink.
pub const SHRINK_FRAMES: u32 = 60;

/// Kernel threadgroup width: one scan or sort block covers 256 elements.
pub const THREADS_PER_GROUP_1D: u32 = 256;

/// Buckets of one radix pass.
pub const RADIX_BUCKETS: u32 = 256;

/// Whether a value is a power of two.
pub open spec fn is_pow2_spec(p: int) -> bool
    decreases p,
{
    if p <= 0 {
        false
    } else if p == 1 {
        true
    } else {
        p % 2 == 0 && is_pow2_spec(p / 2)
    }
}

/// The smallest power of two at or above `x` (and 1 for 0): the unique
/// power of two in `[x, 2x)`.
pub fn next_pow2(x: usize) -> (r: usize)
    requires
        x <= CAPACITY_LIMIT,
    ensures
        is_pow2_spec(r as int),
        r >= x,
        r >= 1,
        x >= 1 ==> r < 2 * x,
{
    let mut p: usize = 1;
    while p < x
        invariant
            1 <= p,
            is_pow2_spec(p as int),
            x >= 1 ==> p < 2 * x,
            x <= CAPACITY_LIMIT,
        decreases 2 * x - p,
    {
        p = p * 2;
    }
    p
}

/// Bytes needed for a count of 32-bit elements.
pub fn bytes_for_u32_elems(count: usize) -> (r: Result<usize, MetalRenderError>)
    ensures
        r is Ok <==> count * 4 <= usize::MAX,
        r is Ok ==> r->Ok_0 == count * 4,
{
    if count > usize::MAX / 4 {
        return Err(MetalRenderError::SizeOverflow);
    }
    Ok(count * 4)
}

/// Scratch elements a recursive block scan of `blocks` blocks needs.
pub open spec fn block_sums_needed(blocks: int) -> int
    decreases blocks,
{
    if blocks <= 1 {
        if blocks < 0 {
            0
        } else {
            blocks
        }
    } else {
        blocks + block_sums_needed((blocks + 255) / 256)
    }
}

/// The scan scratch is never negative and needs at most twice the block count.
pub proof fn lemma_block_sums_needed_bound(blocks: int)
    requires
        blocks >= 0,
    ensures
        0 <= block_sums_needed(blocks) <= 2 * blocks,
    decreases blocks,
{
    if blocks > 1 {
        lemma_block_sums_needed_bound((blocks + 255) / 256);
    }
}

/// Scratch elements the recursive prefix scan needs for `count` elements:
/// the block counts of every level, summed, and at least one.
pub open spec fn required_block_sums_spec(count: int) -> int {
    if count <= 0 {
        1
    } else if block_sums_needed((count + 255) / 256) >= 1 {
        block_sums_needed((count + 255) / 256)
    } else {
        1
    }
}

/// Total scratch elements the recursive prefix scan needs for `count`
/// elements: the block counts of every level, summed.
pub fn required_block_sum_elements(count: usize) -> (r: usize)
    requires
        count <= CAPACITY_LIMIT,
    ensures
        r == required_block_sums_spec(count as int),
        r >= 1,
{
    if count == 0 {
        return 1;
    }
    let mut total: usize = 0;
    let mut blocks: usize = (count + 255) / 256;
    proof {
        lemma_block_sums_needed_bound(blocks as int);
    }
    while blocks > 1
        invariant
            total + block_sums_needed(blocks as int) == block_sums_needed(
                (((count as int) + 255) / 256),
            ),
            block_sums_needed((((count as int) + 255) / 256)) <= 2 * CAPACITY_LIMIT,
            blocks >= 0,
            total >= 0,
            total + 2 * blocks <= 2 * CAPACITY_LIMIT,
        decreases blocks,
    {
        proof {
            lemma_block_sums_needed_bound(((blocks as int) + 255) / 256);
        }
        total = total + blocks;
        blocks = (blocks + 255) / 256;
    }
    total = total + blocks;
    if total == 0 {
        1
    } else {
        total
    }
}

/// What one frame's shrink bookkeeping does to the sort capacity and the
/// low-use frame counter: a frame under half capacity advances the counter;
/// the sixtieth such frame halves the capacity if current use still fits,
/// and any other frame resets the counter.
pub open spec fn shrink_step_spec(cap: int, frames: int, actual: int) -> (int, int) {
    if cap <= 1 {
        (cap, 0)
    } else if actual < cap / 2 {
        if frames >= SHRINK_FRAMES - 1 {
            let half = if cap / 2 > 0 {
                cap / 2
            } else {
                1
            };
            if actual <= half {
                (half, 0)
            } else {
                (cap, 0)
            }
        } else {
            (cap, frames + 1)
        }
    } else {
        (cap, 0)
    }
}

/// The shrink bookkeeping applied over a run of frames, in order.
pub open spec fn shrink_run_spec(cap: int, frames: int, actuals: Seq<int>) -> (int, int)
    decreases actuals.len(),
{
    if actuals.len() == 0 {
        (cap, frames)
    } else {
        let (c, f) = shrink_step_spec(cap, frames, actuals.first());
        shrink_run_spec(c, f, actuals.drop_first())
    }
}

/// The sort capacity holds for at least sixty frames after any reset of the
/// low-use counter: a run of fewer than sixty frames cannot shrink it.
pub proof fn lemma_shrink_hysteresis(cap: int, frames: int, actuals: Seq<int>)
    requires
        0 <= frames,
        frames + actuals.len() < SHRINK_FRAMES,
    ensures
        shrink_run_spec(cap, frames, actuals).0 == cap,
        shrink_run_spec(cap, frames, actuals).1 <= frames + actuals.len(),
    decreases actuals.len(),
{
    if actuals.len() > 0 {
        let (c, f) = shrink_step_spec(cap, frames, actuals.first());
        assert(c == cap);
        lemma_shrink_hysteresis(c, f, actuals.drop_first());
    }
}

impl MetalBackend {
    /// Grows the framebuffer to cover at least the given screen.
    pub fn ensure_framebuffer_capacity(
        &mut self,
        screen_width: usize,
        screen_height: usize,
    ) -> (r: Result<(), MetalRenderError>)
        requires
            crate::metal::backend_wf(*old(self)),
            screen_width <= crate::camera::DIM_MAX,
            screen_height <= crate::camera::DIM_MAX,
        ensures
            crate::metal::backend_wf(*final(self)),
            r is Ok,
            final(self).framebuffer_capacity_pixels >= screen_width * screen_height,
            final(self).framebuffer_capacity_pixels >= old(self).framebuffer_capacity_pixels,
            final(self).framebuffer_capacity_pixels == if screen_width * screen_height > old(self).framebuffer_capacity_pixels {
                (screen_width * screen_height) as int
            } else {
                old(self).framebuffer_capacity_pixels as int
            },
            *final(self) == (MetalBackend {
                framebuffer: final(self).framebuffer,
                framebuffer_capacity_pixels: final(self).framebuffer_capacity_pixels,
                ..*old(self)
            }),
    {
        proof {
            assert(screen_width * screen_height <= 0x1000_0000) by (nonlinear_arith)
                requires
                    screen_width <= 16384usize,
                    screen_height <= 16384usize,
            ;
        }
        let pixels = screen_width * screen_height;
        if pixels > self.framebuffer_capacity_pixels {
            let mut fb: Vec<u32> = Vec::new();
            let mut i: usize = 0;
            while i < pixels
                invariant
                    i <= pixels,
                    fb.len() == i,
                decreases pixels - i,
            {
                fb.push(0);
                i = i + 1;
            }
            self.framebuffer = fb;
            self.framebuffer_capacity_pixels = pixels;
        }
        Ok(())
    }

    /// Grows the tile buffers' capacity to at least `num_tiles`.
    pub fn ensure_tile_capacity(&mut self, num_tiles: usize) -> (r: Result<
        (),
        MetalRenderError,
    >)
        requires
            crate::metal::backend_wf(*old(self)),
            num_tiles <= 1024,
        ensures
            crate::metal::backend_wf(*final(self)),
            r is Ok,
            final(self).tile_capacity >= num_tiles,
            final(self).tile_capacity >= old(self).tile_capacity,
            *final(self) == (MetalBackend { tile_capacity: final(self).tile_capacity, ..*old(self) }),
    {
        if num_tiles <= self.tile_capacity {
            return Ok(());
        }
        self.tile_capacity = num_tiles;
        Ok(())
    }

    /// Sets the sort capacity outright.
    pub fn reallocate_sort_buffers(&mut self, new_capacity: usize) -> (r: Result<
        (),
        MetalRenderError,
    >)
        requires
            crate::metal::backend_wf(*old(self)),
            1 <= new_capacity <= CAPACITY_LIMIT,
        ensures
            crate::metal::backend_wf(*final(self)),
            r is Ok,
            final(self).sort_capacity == new_capacity,
            *final(self) == (MetalBackend { sort_capacity: new_capacity, ..*old(self) }),
    {
        self.sort_capacity = new_capacity;
        Ok(())
    }

    /// Grows the sort capacity to the next power of two at or above
    /// `overlaps` when it does not already cover it.
    pub fn ensure_sort_capacity(&mut self, overlaps: usize) -> (r: Result<(), MetalRenderError>)
        requires
            crate::metal::backend_wf(*old(self)),
        ensures
            crate::metal::backend_wf(*final(self)),
            r is Ok <==> overlaps <= old(self).sort_capacity || overlaps <= CAPACITY_LIMIT / 2,
            r is Ok ==> final(self).sort_capacity >= overlaps,
            r is Ok ==> final(self).sort_capacity >= old(self).sort_capacity,
            r is Ok ==> (overlaps <= old(self).sort_capacity ==> *final(self) == *old(self)),
            r is Ok ==> final(self).sort_capacity <= if old(self).sort_capacity >= 2 * overlaps {
                old(self).sort_capacity as int
            } else if 2 * overlaps >= 1 {
                2 * (overlaps as int)
            } else {
                1int
            },
            r is Ok && overlaps > old(self).sort_capacity ==> is_pow2_spec(
                final(self).sort_capacity as int,
            ),
            *final(self) == (MetalBackend { sort_capacity: final(self).sort_capacity, ..*old(self) }),
            r is Err ==> *final(self) == *old(self),
    {
        if overlaps <= self.sort_capacity {
            return Ok(());
        }
        if overlaps > CAPACITY_LIMIT / 2 {
            return Err(MetalRenderError::SizeOverflow);
        }
        let new_capacity = next_pow2(overlaps);
        self.reallocate_sort_buffers(new_capacity)
    }

    /// Grows the sort capacity to `required_overlaps` scaled by the given
    /// headroom ratio.
    pub fn ensure_sort_capacity_with_headroom(
        &mut self,
        required_overlaps: usize,
        headroom_factor_num: usize,
        headroom_factor_den: usize,
    ) -> (r: Result<(), MetalRenderError>)
        requires
            crate::metal::backend_wf(*old(self)),
            headroom_factor_num <= 4,
            1 <= headroom_factor_den <= 4,
        ensures
            crate::metal::backend_wf(*final(self)),
            r is Ok <==> required_overlaps <= 0x800_0000,
            r is Ok ==> final(self).sort_capacity >= (required_overlaps * headroom_factor_num + (
            headroom_factor_den as int) - 1) / (headroom_factor_den as int) && final(self).sort_capacity >= old(self).sort_capacity && final(self).sort_capacity >= 1,
            *final(self) == (MetalBackend { sort_capacity: final(self).sort_capacity, ..*old(self) }),
            r is Err ==> *final(self) == *old(self),
    {
        if required_overlaps > 0x800_0000 {
            return Err(MetalRenderError::SizeOverflow);
        }
        proof {
            assert(required_overlaps * headroom_factor_num <= 0x2000_0000) by (nonlinear_arith)
                requires
                    required_overlaps <= 0x800_0000usize,
                    headroom_factor_num <= 4usize,
            ;
        }
        let headroom = (required_overlaps * headroom_factor_num + (headroom_factor_den - 1))
            / headroom_factor_den;
        let target = if headroom > 0 {
            headroom
        } else {
            1
        };
        proof {
            assert(headroom <= 0x2000_0000) by (nonlinear_arith)
                requires
                    headroom as int == ((required_overlaps as int) * (headroom_factor_num as int)
                        + (headroom_factor_den as int) - 1) / (headroom_factor_den as int),
                    required_overlaps <= 0x800_0000usize,
                    headroom_factor_num <= 4usize,
                    1 <= headroom_factor_den <= 4usize,
            ;
        }
        self.ensure_sort_capacity(target)
    }

    /// Shrinks the sort capacity by half after sixty consecutive frames
    /// whose overlaps stayed under half of it, and never below current use.
    pub fn maybe_shrink_sort_capacity(&mut self, actual_overlaps: usize) -> (r: Result<
        (),
        MetalRenderError,
    >)
        requires
            crate::metal::backend_wf(*old(self)),
        ensures
            crate::metal::backend_wf(*final(self)),
            r is Ok,
            (final(self).sort_capacity as int, final(self).frames_below_threshold as int)
                == shrink_step_spec(
                old(self).sort_capacity as int,
                old(self).frames_below_threshold as int,
                actual_overlaps as int,
            ),
            2 * final(self).sort_capacity + 1 >= old(self).sort_capacity,
            final(self).sort_capacity <= old(self).sort_capacity,
            final(self).sort_capacity < old(self).sort_capacity ==> old(self).frames_below_threshold >= SHRINK_FRAMES - 1 && actual_overlaps <= final(self).sort_capacity && 2 * actual_overlaps < old(self).sort_capacity,
            final(self).frames_below_threshold <= SHRINK_FRAMES,
            *final(self) == (MetalBackend {
                sort_capacity: final(self).sort_capacity,
                frames_below_threshold: final(self).frames_below_threshold,
                ..*old(self)
            }),
    {
        if self.sort_capacity <= 1 {
            self.frames_below_threshold = 0;
            return Ok(());
        }
        let shrink_threshold = self.sort_capacity / 2;
        if actual_overlaps < shrink_threshold {
            if self.frames_below_threshold >= SHRINK_FRAMES - 1 {
                let half = self.sort_capacity / 2;
                let new_capacity = if half > 0 {
                    half
                } else {
                    1
                };
                if actual_overlaps <= new_capacity {
                    let res = self.reallocate_sort_buffers(new_capacity);
                    if res.is_err() {
                        return res;
                    }
                }
                self.frames_below_threshold = 0;
            } else {
                self.frames_below_threshold = self.frames_below_threshold + 1;
            }
        } else {
            self.frames_below_threshold = 0;
        }
        Ok(())
    }

    /// Grows the histogram buffer's capacity.
    pub fn ensure_histogram_capacity(&mut self, histogram_count: usize) -> (r: Result<
        (),
        MetalRenderError,
    >)
        requires
            crate::metal::backend_wf(*old(self)),
            1 <= histogram_count,
        ensures
            crate::metal::backend_wf(*final(self)),
            r is Ok,
            final(self).histogram_capacity >= histogram_count,
            final(self).histogram_capacity >= old(self).histogram_capacity,
            *final(self) == (MetalBackend {
                histogram_capacity: final(self).histogram_capacity,
                ..*old(self)
            }),
    {
        if histogram_count <= self.histogram_capacity {
            return Ok(());
        }
        self.histogram_capacity = histogram_count;
        Ok(())
    }

    /// Grows the scan-scratch capacity to what a recursive block scan of
    /// `count` elements needs.
    pub fn ensure_block_sums_capacity_for_count(&mut self, count: u32) -> (r: Result<
        (),
        MetalRenderError,
    >)
        requires
            crate::metal::backend_wf(*old(self)),
            count as int <= CAPACITY_LIMIT as int,
        ensures
            crate::metal::backend_wf(*final(self)),
            r is Ok,
            final(self).block_sums_capacity >= required_block_sums_spec(count as int),
            final(self).block_sums_capacity >= old(self).block_sums_capacity,
            *final(self) == (MetalBackend {
                block_sums_capacity: final(self).block_sums_capacity,
                ..*old(self)
            }),
    {
        let required = required_block_sum_elements(count as usize);
        if required <= self.block_sums_capacity {
            return Ok(());
        }
        self.block_sums_capacity = required;
        Ok(())
    }
}

} // verus!
