//! Per-tile blending: every pixel folds, in sorted-key order, over the
//! entries of its own tile, and the result is packed as R | G<<8 | B<<16 |
//! A<<24.

use vstd::prelude::*;

use crate::camera::DIM_MAX;
use crate::keys::key_tile;
use crate::radix::KeyValue;
use crate::raster::{blend_pixel, blend_spec, off_spec, PixelState};
use crate::splat::{projected_wf, ProjectedSplat, Rgb};
use crate::tiles::{tile_config_wf, TileConfig};
use crate::fp::FP;

verus! {

/// The packed 32-bit pixel: R in the low byte, then G, B, and the alpha
/// byte on top.
pub open spec fn pack_pixel_spec(pix: PixelState) -> int {
    let a8 = (pix.alpha as int) * 255 / 65536;
    pix.color.r + 256 * pix.color.g + 65536 * pix.color.b + 0x100_0000 * a8
}

/// Packs a blended pixel into the 32-bit framebuffer format.
pub fn pack_pixel(pix: PixelState) -> (r: u32)
    requires
        pix.alpha <= FP as u32,
    ensures
        r == pack_pixel_spec(pix),
{
    let a8 = ((pix.alpha as u64) * 255 / 65536) as u32;
    pix.color.r as u32 + 256 * (pix.color.g as u32) + 65536 * (pix.color.b as u32) + 0x100_0000
        * a8
}

/// The pixel every render starts from: black, transparent, no depth.
pub open spec fn black_pixel_spec() -> PixelState {
    PixelState { color: Rgb { r: 0, g: 0, b: 0 }, alpha: 0, depth: 0 }
}

/// The tile that owns a pixel, as a row-major tile index.
pub open spec fn tile_of_spec(tc: TileConfig, px: int, py: int) -> int {
    (py / 16) * (tc.tile_count_x as int) + px / 16
}

/// One pixel of the tile back-end: the blend fold, in sorted order, over
/// the entries carrying the pixel's tile, starting from black.
pub open spec fn tile_pixel_spec(
    projected: Seq<ProjectedSplat>,
    entries: Seq<KeyValue>,
    t: int,
    px: int,
    py: int,
    init: PixelState,
) -> PixelState
    decreases entries.len(),
{
    if entries.len() == 0 {
        init
    } else {
        let prev = tile_pixel_spec(projected, entries.drop_last(), t, px, py, init);
        let e = entries.last();
        if key_tile(e.key) == t && e.value < projected.len() {
            let s = projected[e.value as int];
            blend_spec(prev, s, off_spec(px, s.screen_x as int), off_spec(py, s.screen_y as int))
        } else {
            prev
        }
    }
}

/// Folds one pixel through its tile's sorted entries.
fn tile_raster_one_pixel(
    projected: &Vec<ProjectedSplat>,
    entries: &Vec<KeyValue>,
    t: u32,
    px: usize,
    py: usize,
) -> (r: PixelState)
    requires
        forall|i: int| 0 <= i < projected.len() ==> projected_wf(#[trigger] projected@[i]),
        px < DIM_MAX,
        py < DIM_MAX,
    ensures
        r == tile_pixel_spec(
            projected@,
            entries@,
            t as int,
            px as int,
            py as int,
            black_pixel_spec(),
        ),
        r.alpha <= FP as u32,
{
    let n = entries.len();
    let mut pix = PixelState { color: Rgb { r: 0, g: 0, b: 0 }, alpha: 0, depth: 0 };
    let mut k: usize = 0;
    proof {
        assert(entries@.take(0) =~= Seq::<KeyValue>::empty());
    }
    while k < n
        invariant
            k <= n,
            n == entries.len(),
            forall|i: int| 0 <= i < projected.len() ==> projected_wf(#[trigger] projected@[i]),
            px < DIM_MAX,
            py < DIM_MAX,
            pix == tile_pixel_spec(
                projected@,
                entries@.take(k as int),
                t as int,
                px as int,
                py as int,
                black_pixel_spec(),
            ),
            pix.alpha <= FP as u32,
        decreases n - k,
    {
        proof {
            assert(entries@.take(k + 1).drop_last() =~= entries@.take(k as int));
            assert(entries@.take(k + 1).last() == entries@[k as int]);
        }
        let e = entries[k];
        if (e.key >> 22) == t && (e.value as usize) < projected.len() {
            proof {
                assert(key_tile(e.key) == e.key >> 22);
            }
            let s = projected[e.value as usize];
            let dx = (px as i64) * 65536 + 32768 - s.screen_x;
            let dy = (py as i64) * 65536 + 32768 - s.screen_y;
            pix = blend_pixel(pix, &s, dx, dy);
        } else {
            proof {
                assert(key_tile(entries@[k as int].key) == entries@[k as int].key >> 22);
            }
        }
        k = k + 1;
    }
    proof {
        assert(entries@.take(n as int) =~= entries@);
    }
    pix
}

/// Rasterizes the sorted tile entries into the packed framebuffer: each
/// pixel of the screen becomes its tile fold, packed; pixels beyond the
/// screen area keep their former values.
pub fn rasterize_tiles(
    projected: &Vec<ProjectedSplat>,
    entries: &Vec<KeyValue>,
    tc: &TileConfig,
    framebuffer: &mut Vec<u32>,
) -> (nothing: ())
    requires
        forall|i: int| 0 <= i < projected.len() ==> projected_wf(#[trigger] projected@[i]),
        tile_config_wf(*tc),
        old(framebuffer).len() >= tc.screen_width * tc.screen_height,
    ensures
        final(framebuffer).len() == old(framebuffer).len(),
        forall|px: int, py: int|
            0 <= px < tc.screen_width && 0 <= py < tc.screen_height ==> final(framebuffer)@[py
                * tc.screen_width + px] == pack_pixel_spec(
                tile_pixel_spec(
                    projected@,
                    entries@,
                    tile_of_spec(*tc, px, py),
                    px,
                    py,
                    black_pixel_spec(),
                ),
            ),
        forall|i: int|
            tc.screen_width * tc.screen_height <= i < final(framebuffer).len() ==> final(framebuffer)@[i] == old(framebuffer)@[i],
{
    let width = tc.screen_width as usize;
    let height = tc.screen_height as usize;
    let ghost init_fb = framebuffer@;
    let mut py: usize = 0;
    while py < height
        invariant
            py <= height,
            width == tc.screen_width,
            height == tc.screen_height,
            tile_config_wf(*tc),
            forall|i: int| 0 <= i < projected.len() ==> projected_wf(#[trigger] projected@[i]),
            framebuffer.len() == init_fb.len(),
            init_fb.len() >= width * height,
            forall|qx: int, qy: int|
                0 <= qx < width && 0 <= qy < height ==> #[trigger] framebuffer@[qy * width + qx]
                    == (if qy < py {
                    pack_pixel_spec(
                        tile_pixel_spec(
                            projected@,
                            entries@,
                            tile_of_spec(*tc, qx, qy),
                            qx,
                            qy,
                            black_pixel_spec(),
                        ),
                    )
                } else {
                    init_fb[qy * width + qx] as int
                }),
            forall|i: int| width * height <= i < framebuffer.len() ==> framebuffer@[i] == init_fb[i],
        decreases height - py,
    {
        let mut px: usize = 0;
        while px < width
            invariant
                px <= width,
                py < height,
                width == tc.screen_width,
                height == tc.screen_height,
                tile_config_wf(*tc),
                forall|i: int| 0 <= i < projected.len() ==> projected_wf(#[trigger] projected@[i]),
                framebuffer.len() == init_fb.len(),
                init_fb.len() >= width * height,
                forall|qx: int, qy: int|
                    0 <= qx < width && 0 <= qy < height ==> #[trigger] framebuffer@[qy * width
                        + qx] == (if qy < py || (qy == py && qx < px) {
                        pack_pixel_spec(
                            tile_pixel_spec(
                                projected@,
                                entries@,
                                tile_of_spec(*tc, qx, qy),
                                qx,
                                qy,
                                black_pixel_spec(),
                            ),
                        )
                    } else {
                        init_fb[qy * width + qx] as int
                    }),
                forall|i: int|
                    width * height <= i < framebuffer.len() ==> framebuffer@[i] == init_fb[i],
            decreases width - px,
        {
            proof {
                crate::raster::lemma_row_major(
                    width as int,
                    height as int,
                    px as int,
                    py as int,
                    0,
                    0,
                );
                assert((px as int) / 16 < tc.tile_count_x as int) by (nonlinear_arith)
                    requires
                        (px as int) < (tc.tile_count_x as int) * 16,
                        tc.tile_count_x >= 1,
                ;
                assert((py as int) / 16 < tc.tile_count_y as int) by (nonlinear_arith)
                    requires
                        (py as int) < (tc.tile_count_y as int) * 16,
                        tc.tile_count_y >= 1,
                ;
                assert(((py as int) / 16) * (tc.tile_count_x as int) + (px as int) / 16 < (
                tc.tile_count_y as int) * (tc.tile_count_x as int)) by (nonlinear_arith)
                    requires
                        (px as int) / 16 < tc.tile_count_x as int,
                        (py as int) / 16 < tc.tile_count_y as int,
                        tc.tile_count_x >= 1,
                ;
                assert(((py as int) / 16) * (tc.tile_count_x as int) + (px as int) / 16
                    < 1024) by (nonlinear_arith)
                    requires
                        (px as int) / 16 < tc.tile_count_x as int,
                        (py as int) / 16 < tc.tile_count_y as int,
                        tc.tile_count_x >= 1,
                        (tc.tile_count_x as int) * (tc.tile_count_y as int) <= 1024,
                ;
            }
            let t = ((py as u32) / 16) * tc.tile_count_x + (px as u32) / 16;
            let pix = tile_raster_one_pixel(projected, entries, t, px, py);
            let packed = pack_pixel(pix);
            let idx = py * width + px;
            let ghost pre = framebuffer@;
            framebuffer.set(idx, packed);
            proof {
                assert forall|qx: int, qy: int|
                    0 <= qx < width && 0 <= qy < height implies #[trigger] framebuffer@[qy * width
                    + qx] == (if qy < py || (qy == py && qx < px + 1) {
                    pack_pixel_spec(
                        tile_pixel_spec(
                            projected@,
                            entries@,
                            tile_of_spec(*tc, qx, qy),
                            qx,
                            qy,
                            black_pixel_spec(),
                        ),
                    )
                } else {
                    init_fb[qy * width + qx] as int
                }) by {
                    crate::raster::lemma_row_major(
                        width as int,
                        height as int,
                        px as int,
                        py as int,
                        qx,
                        qy,
                    );
                    crate::raster::lemma_row_major(
                        width as int,
                        height as int,
                        qx,
                        qy,
                        px as int,
                        py as int,
                    );
                    if qx == px && qy == py {
                        assert(framebuffer@[qy * width + qx] == packed);
                        assert(t as int == tile_of_spec(*tc, px as int, py as int));
                    } else {
                        assert(framebuffer@[qy * width + qx] == pre[qy * width + qx]);
                    }
                }
            }
            px = px + 1;
        }
        py = py + 1;
    }
}

} // verus!
