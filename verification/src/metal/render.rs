//! The render orchestrator: runs the kernel pipeline once, reads back the
//! overlap total and the overflow flag, grows the sort buffers and retries
//! once on overflow, and defers the frame when even the retry overflows.

use vstd::prelude::*;

use crate::camera::{camera_wf, Camera, DIM_MAX};
use crate::metal::error::MetalRenderError;
use crate::metal::raster::{
    black_pixel_spec, pack_pixel_spec, rasterize_tiles, tile_of_spec, tile_pixel_spec,
};
use crate::metal::{backend_wf, MetalBackend};
use crate::pipeline::{project_and_cull_splats, project_seq_spec};
use crate::radix::{radix_sort_pairs, radix_sort_spec};
use crate::scan::{prefix_scan_exclusive, seq_sum, sum_counts};
use crate::splat::{splat_wf, Splat};
use crate::tiles::{
    count_tile_overlaps, emit_spec, emit_tile_keys, tile_config_wf, TileConfig,
};

verus! {

/// What one pipeline attempt reads back: the overflow flag and the total
/// splat-tile overlap count.
#[derive(Clone, Copy, PartialEq, Eq, Structural, Debug)]
pub struct RenderAttemptResult {
    pub overflow_flag: u32,
    pub total_overlaps: u32,
}

/// The tile grid a screen gets: enough 16-pixel tiles to cover it.
pub open spec fn tile_config_spec(width: int, height: int) -> TileConfig {
    TileConfig {
        tile_count_x: ((width + 15) / 16) as u32,
        tile_count_y: ((height + 15) / 16) as u32,
        screen_width: width as u32,
        screen_height: height as u32,
    }
}

/// The total overlap count of a frame: every emitted (splat, tile) pair.
pub open spec fn frame_overlaps_spec(splats: Seq<Splat>, cam: Camera, w: int, h: int) -> int {
    emit_spec(
        project_seq_spec(splats, cam, w, h),
        tile_config_spec(w, h),
        cam.near as int,
        cam.far as int,
    ).len() as int
}

/// One packed pixel of a finished frame: the projected splats, emitted as
/// tile keys, radix-sorted, and blended front to back at this pixel.
pub open spec fn frame_pixel_spec(
    splats: Seq<Splat>,
    cam: Camera,
    w: int,
    h: int,
    px: int,
    py: int,
) -> int {
    let projected = project_seq_spec(splats, cam, w, h);
    let tc = tile_config_spec(w, h);
    let sorted = radix_sort_spec(
        emit_spec(projected, tc, cam.near as int, cam.far as int),
    );
    pack_pixel_spec(
        tile_pixel_spec(projected, sorted, tile_of_spec(tc, px, py), px, py, black_pixel_spec()),
    )
}

/// Runs the kernel pipeline once at the current sort capacity.
pub fn run_single_render_attempt(
    backend: &mut MetalBackend,
    camera: &Camera,
    screen_width: usize,
    screen_height: usize,
    splat_count: usize,
) -> (r: Result<RenderAttemptResult, MetalRenderError>)
    requires
        backend_wf(*old(backend)),
        camera_wf(*camera),
        1 <= screen_width <= DIM_MAX,
        1 <= screen_height <= DIM_MAX,
        ((screen_width + 15) / 16) * ((screen_height + 15) / 16) <= 1024,
        splat_count <= old(backend).splats.len(),
        screen_width * screen_height <= old(backend).framebuffer_capacity_pixels,
    ensures
        backend_wf(*final(backend)),
        final(backend).splats == old(backend).splats,
        final(backend).max_splats == old(backend).max_splats,
        final(backend).sort_capacity == old(backend).sort_capacity,
        final(backend).tile_capacity == old(backend).tile_capacity,
        final(backend).framebuffer_capacity_pixels == old(backend).framebuffer_capacity_pixels,
        final(backend).splats_uploaded == old(backend).splats_uploaded,
        final(backend).gpu_disabled == old(backend).gpu_disabled,
        final(backend).previous_total_overlaps == old(backend).previous_total_overlaps,
        final(backend).frames_below_threshold == old(backend).frames_below_threshold,
        final(backend).last_render_width == old(backend).last_render_width,
        final(backend).last_render_height == old(backend).last_render_height,
        r is Ok <==> frame_overlaps_spec(
            old(backend).splats@.take(splat_count as int),
            *camera,
            screen_width as int,
            screen_height as int,
        ) <= u32::MAX,
        r is Err ==> r->Err_0 == MetalRenderError::SizeOverflow,
        r is Ok ==> {
            let res = r->Ok_0;
            &&& res.total_overlaps == frame_overlaps_spec(
                old(backend).splats@.take(splat_count as int),
                *camera,
                screen_width as int,
                screen_height as int,
            )
            &&& (res.overflow_flag == 0 <==> res.total_overlaps <= old(backend).sort_capacity)
            &&& (res.overflow_flag == 0 ==> forall|px: int, py: int|
                0 <= px < screen_width && 0 <= py < screen_height ==> final(backend).framebuffer@[py * screen_width + px] == frame_pixel_spec(
                    old(backend).splats@.take(splat_count as int),
                    *camera,
                    screen_width as int,
                    screen_height as int,
                    px,
                    py,
                ))
            &&& (res.overflow_flag != 0 ==> forall|i: int|
                0 <= i < final(backend).framebuffer.len() ==> final(backend).framebuffer@[i]
                    == 0)
        },
{
    let ghost scene_spec = backend.splats@.take(splat_count as int);
    backend.clear_framebuffer(screen_width, screen_height);
    let mut scene: Vec<Splat> = Vec::new();
    let mut i: usize = 0;
    while i < splat_count
        invariant
            i <= splat_count,
            splat_count <= backend.splats.len(),
            scene@ == backend.splats@.take(i as int),
        decreases splat_count - i,
    {
        scene.push(backend.splats[i]);
        proof {
            assert(scene@ =~= backend.splats@.take(i + 1));
        }
        i = i + 1;
    }
    proof {
        assert(scene@ == scene_spec);
        assert(forall|k: int| 0 <= k < scene@.len() ==> splat_wf(#[trigger] scene@[k]));
    }
    let mut projected: Vec<crate::splat::ProjectedSplat> = Vec::new();
    let mut visible: usize = 0;
    project_and_cull_splats(
        &scene,
        &mut projected,
        camera,
        screen_width,
        screen_height,
        &mut visible,
    );
    proof {
        crate::pipeline::lemma_project_seq_len(
            scene_spec,
            *camera,
            screen_width as int,
            screen_height as int,
        );
    }
    let tcx = crate::metal::sort::div_ceil_u32(screen_width as u32, 16);
    let tcy = crate::metal::sort::div_ceil_u32(screen_height as u32, 16);
    let tc = TileConfig {
        tile_count_x: tcx,
        tile_count_y: tcy,
        screen_width: screen_width as u32,
        screen_height: screen_height as u32,
    };
    proof {
        assert(tc == tile_config_spec(screen_width as int, screen_height as int));
        assert(tile_config_wf(tc));
    }
    let num_tiles = (tcx * tcy) as usize;
    let counts = count_tile_overlaps(&projected, &tc);
    let total64 = sum_counts(&counts);
    let ghost near = camera.near as int;
    let ghost far = camera.far as int;
    proof {
        crate::tiles::lemma_counts_sum(counts@, projected@, tc, counts@.len() - 1);
        assert(counts@.take(counts@.len() as int) =~= counts@);
        crate::tiles::lemma_tiles_concat_len(projected@, tc, counts@.len() - 1, near, far);
        assert(counts@.len() == tc.tile_count_x * tc.tile_count_y);
        assert(seq_sum(counts@) == emit_spec(projected@, tc, near, far).len());
    }
    if total64 > 0xFFFF_FFFFu64 {
        return Err(MetalRenderError::SizeOverflow);
    }
    let offsets = prefix_scan_exclusive(&counts);
    let total = offsets[num_tiles];
    proof {
        assert(counts@.take(counts@.len() as int) =~= counts@);
        assert(total == seq_sum(counts@));
    }
    let blocks = crate::metal::sort::div_ceil_u32(
        backend.sort_capacity as u32,
        crate::metal::buffers::THREADS_PER_GROUP_1D,
    );
    let histogram_count = blocks * crate::metal::buffers::RADIX_BUCKETS;
    proof {
        assert(blocks <= 0x40_0000);
    }
    let res1 = backend.ensure_histogram_capacity(
        if histogram_count > 0 {
            histogram_count as usize
        } else {
            1
        },
    );
    if res1.is_err() {
        return Err(MetalRenderError::SizeOverflow);
    }
    let res2 = backend.ensure_block_sums_capacity_for_count(tcx * tcy);
    if res2.is_err() {
        return Err(MetalRenderError::SizeOverflow);
    }
    let res3 = backend.ensure_block_sums_capacity_for_count(histogram_count);
    if res3.is_err() {
        return Err(MetalRenderError::SizeOverflow);
    }
    let entries = emit_tile_keys(&projected, &tc, camera.near, camera.far);
    proof {
        assert(entries@.len() == total as int);
    }
    if entries.len() > backend.sort_capacity {
        return Ok(RenderAttemptResult { overflow_flag: 1, total_overlaps: total });
    }
    let sorted = radix_sort_pairs(&entries);
    rasterize_tiles(&projected, &sorted, &tc, &mut backend.framebuffer);
    Ok(RenderAttemptResult { overflow_flag: 0, total_overlaps: total })
}

impl MetalBackend {
    /// Renders the first `splat_count` uploaded splats at the given screen
    /// size, growing the sort buffers and retrying once when they overflow.
    pub fn render(
        &mut self,
        camera: &Camera,
        screen_width: usize,
        screen_height: usize,
        splat_count: usize,
    ) -> (r: Result<(), MetalRenderError>)
        requires
            backend_wf(*old(self)),
            camera_wf(*camera),
            screen_width <= DIM_MAX,
            screen_height <= DIM_MAX,
            splat_count <= old(self).splats.len(),
        ensures
            backend_wf(*final(self)),
            final(self).splats == old(self).splats,
            final(self).max_splats == old(self).max_splats,
            final(self).splats_uploaded == old(self).splats_uploaded,
            final(self).gpu_disabled == old(self).gpu_disabled,
            2 * final(self).sort_capacity + 1 >= old(self).sort_capacity,
            r == Err::<(), MetalRenderError>(MetalRenderError::GpuDisabled) <==> old(self).gpu_disabled,
            r == Err::<(), MetalRenderError>(MetalRenderError::NotUploaded) <==> !old(self).gpu_disabled && !old(self).splats_uploaded,
            !old(self).gpu_disabled && old(self).splats_uploaded && (screen_width == 0
                || screen_height == 0) ==> r is Ok,
            !old(self).gpu_disabled && old(self).splats_uploaded && 1 <= screen_width
                && screen_width <= DIM_MAX && 1 <= screen_height && screen_height <= DIM_MAX
                && splat_count <= old(self).max_splats && ((screen_width as int + 15) / 16) * ((
            screen_height as int + 15) / 16) <= 1023 && frame_overlaps_spec(
                old(self).splats@.take(splat_count as int),
                *camera,
                screen_width as int,
                screen_height as int,
            ) <= 0x800_0000 ==> r is Ok,
            r is Ok ==> final(self).last_render_width == screen_width && final(self).last_render_height == screen_height,
            r is Ok && screen_width >= 1 && screen_height >= 1 && splat_count >= 1 ==> {
                &&& final(self).sort_capacity >= frame_overlaps_spec(
                    old(self).splats@.take(splat_count as int),
                    *camera,
                    screen_width as int,
                    screen_height as int,
                )
                &&& forall|px: int, py: int|
                    0 <= px < screen_width && 0 <= py < screen_height ==> final(self).framebuffer@[py * screen_width + px] == frame_pixel_spec(
                        old(self).splats@.take(splat_count as int),
                        *camera,
                        screen_width as int,
                        screen_height as int,
                        px,
                        py,
                    )
            },
            r is Ok && screen_width >= 1 && screen_height >= 1 && splat_count == 0 ==> forall|
                i: int,
            |
                0 <= i < final(self).framebuffer.len() ==> final(self).framebuffer@[i] == 0,
            (r matches Err(MetalRenderError::OverflowDeferred { requested_capacity, overlaps })
                ==> final(self).sort_capacity >= requested_capacity && requested_capacity == if 2
                * overlaps >= 1 {
                2 * (overlaps as int)
            } else {
                1int
            }),
    {
        if self.gpu_disabled {
            return Err(MetalRenderError::GpuDisabled);
        }
        if !self.splats_uploaded {
            return Err(MetalRenderError::NotUploaded);
        }
        if screen_width == 0 || screen_height == 0 {
            self.last_render_width = screen_width;
            self.last_render_height = screen_height;
            proof {
                assert(screen_width * screen_height == 0) by (nonlinear_arith)
                    requires
                        screen_width == 0 || screen_height == 0,
                ;
            }
            return Ok(());
        }
        if splat_count > self.max_splats {
            return Err(MetalRenderError::TooManySplats);
        }
        let tcx = crate::metal::sort::div_ceil_u32(screen_width as u32, 16);
        let tcy = crate::metal::sort::div_ceil_u32(screen_height as u32, 16);
        proof {
            assert((tcx as int) * (tcy as int) <= 0x10_0000) by (nonlinear_arith)
                requires
                    tcx <= 1024u32,
                    tcy <= 1024u32,
            ;
        }
        let num_tiles = (tcx as u64) * (tcy as u64);
        if num_tiles > 1023 {
            return Err(MetalRenderError::TileCountExceeded);
        }
        let res = self.ensure_framebuffer_capacity(screen_width, screen_height);
        if res.is_err() {
            return Err(MetalRenderError::SizeOverflow);
        }
        if splat_count == 0 {
            self.clear_framebuffer(screen_width, screen_height);
            self.last_render_width = screen_width;
            self.last_render_height = screen_height;
            return Ok(());
        }
        let res = self.ensure_tile_capacity((tcx * tcy) as usize);
        if res.is_err() {
            return Err(MetalRenderError::SizeOverflow);
        }
        let estimated_overlaps = if self.previous_total_overlaps > 0 {
            let prev_capped: usize = if self.previous_total_overlaps > 0x800_0000 {
                0x800_0000
            } else {
                self.previous_total_overlaps as usize
            };
            let doubled = prev_capped * 2;
            let floor4 = if splat_count > 0x800_0000 {
                0x800_0000
            } else {
                splat_count * 4
            };
            if doubled > floor4 {
                doubled
            } else {
                floor4
            }
        } else {
            if splat_count > 0x800_0000 {
                0x800_0000
            } else {
                splat_count * 8
            }
        };
        let estimated = if estimated_overlaps > 0x800_0000 {
            0x800_0000
        } else if estimated_overlaps > 0 {
            estimated_overlaps
        } else {
            1
        };
        let res = self.ensure_sort_capacity_with_headroom(estimated, 2, 1);
        if res.is_err() {
            return Err(MetalRenderError::SizeOverflow);
        }
        let first = match run_single_render_attempt(
            self,
            camera,
            screen_width,
            screen_height,
            splat_count,
        ) {
            Ok(a) => a,
            Err(e) => {
                return Err(e);
            },
        };
        self.previous_total_overlaps = first.total_overlaps;
        if first.overflow_flag == 0 {
            let res = self.maybe_shrink_sort_capacity(first.total_overlaps as usize);
            if res.is_err() {
                return Err(MetalRenderError::SizeOverflow);
            }
            self.last_render_width = screen_width;
            self.last_render_height = screen_height;
            return Ok(());
        }
        if first.total_overlaps > 0x800_0000 {
            return Err(MetalRenderError::SizeOverflow);
        }
        let retry_target = {
            let doubled = (first.total_overlaps as usize) * 2;
            if doubled > 0 {
                doubled
            } else {
                1
            }
        };
        let res = self.ensure_sort_capacity(retry_target);
        if res.is_err() {
            return Err(MetalRenderError::SizeOverflow);
        }
        let second = match run_single_render_attempt(
            self,
            camera,
            screen_width,
            screen_height,
            splat_count,
        ) {
            Ok(a) => a,
            Err(e) => {
                return Err(e);
            },
        };
        self.previous_total_overlaps = second.total_overlaps;
        if second.overflow_flag == 0 {
            let res = self.maybe_shrink_sort_capacity(second.total_overlaps as usize);
            if res.is_err() {
                return Err(MetalRenderError::SizeOverflow);
            }
            self.last_render_width = screen_width;
            self.last_render_height = screen_height;
            return Ok(());
        }
        if second.total_overlaps > 0x800_0000 {
            return Err(MetalRenderError::SizeOverflow);
        }
        let growth_target = {
            let doubled = (second.total_overlaps as usize) * 2;
            if doubled > 0 {
                doubled
            } else {
                1
            }
        };
        let res = self.ensure_sort_capacity(growth_target);
        if res.is_err() {
            return Err(MetalRenderError::SizeOverflow);
        }
        Err(
            MetalRenderError::OverflowDeferred {
                requested_capacity: growth_target,
                overlaps: second.total_overlaps,
            },
        )
    }
}

} // verus!
