//! Front-to-back alpha compositing of depth-sorted splats into a pixel
//! buffer.
//!
//! Every pixel is independent: its final value is the fold, in splat order,
//! of one guarded blend step per splat whose clipped bounding box covers the
//! pixel.  The rasterizer's contract states exactly that fold, and the alpha
//! law (accumulated alpha never decreases and never passes one) follows
//! from the step.

use vstd::prelude::*;

use crate::camera::DIM_MAX;
use crate::fp::{fp_abs, gmul, gmul_spec, FP};
use crate::splat::{projected_wf, ProjectedSplat, Rgb, INV_COV_MAX};

verus! {

/// Accumulated alpha at which a pixel counts as opaque (0.999).
pub const SATURATION_EPSILON: u32 = 65470;

/// Smallest Gaussian weight that still contributes (0.001).
pub const MIN_GAUSSIAN_CONTRIBUTION: u32 = 66;

/// Smallest blend weight that still contributes (about 1e-4).
pub const MIN_BLEND_WEIGHT: u32 = 7;

/// The 4-sigma cutoff on the Mahalanobis form: q above 32 contributes nothing.
pub const Q_CUTOFF: i64 = 0x20_0000;

/// log2(e) in 16.16 fixed point.
pub const LOG2E: u64 = 94548;

/// ln(2) in 16.16 fixed point.
pub const LN2: u64 = 45426;

/// Quadratic coefficient of the 2^-f approximation (0.2402).
pub const EXP_C2: u64 = 15743;

/// Cubic coefficient of the 2^-f approximation (0.0555).
pub const EXP_C3: u64 = 3637;

/// Magnitude bound on pixel-center offsets handed to the Gaussian.
pub const DX_LIMIT: i64 = 0x2_0000_0000;

/// `p` halved `n` times, rounding down each time.
pub open spec fn halve_n(p: int, n: int) -> int
    decreases n,
{
    if n <= 0 {
        p
    } else {
        halve_n(p, n - 1) / 2
    }
}

/// Halving keeps a non-negative value non-negative and never enlarges it.
pub proof fn lemma_halve_bounds(p: int, n: int)
    requires
        p >= 0,
    ensures
        0 <= halve_n(p, n) <= p,
    decreases n,
{
    if n > 0 {
        lemma_halve_bounds(p, n - 1);
    }
}

/// The Gaussian falloff exp(-q/2) in 16.16 fixed point, approximated as
/// 2^-(q/2 * log2(e)) with a cubic polynomial for the fractional power.
pub open spec fn falloff_spec(q: int) -> int {
    if q <= 0 {
        FP as int
    } else {
        let u = q / 2;
        let t = u * (LOG2E as int) / 65536;
        let n = t / 65536;
        let f = t % 65536;
        let f2 = f * f / 65536;
        let f3 = f2 * f / 65536;
        let p = 65536 + (EXP_C2 as int) * f2 / 65536 - (LN2 as int) * f / 65536 - (EXP_C3 as int)
            * f3 / 65536;
        let pc = if p < 0 {
            0
        } else if p > 65536 {
            65536
        } else {
            p
        };
        halve_n(pc, n)
    }
}

/// The Mahalanobis form q = dx^2*ia + 2*dx*dy*ib + dy^2*ic, or `None` when
/// a guarded product leaves the fixed-point range (then q is far past the
/// cutoff and the contribution is zero).
pub open spec fn q_form_spec(dx: int, dy: int, ia: int, ib: int, ic: int) -> Option<int> {
    let txx = gmul_spec(dx, dx);
    let txy = gmul_spec(dx, dy);
    let tyy = gmul_spec(dy, dy);
    if txx is None || txy is None || tyy is None {
        None
    } else {
        let qa = gmul_spec(txx->0, ia);
        let qb = gmul_spec(txy->0, ib);
        let qc = gmul_spec(tyy->0, ic);
        if qa is None || qb is None || qc is None {
            None
        } else {
            Some(qa->0 + 2 * qb->0 + qc->0)
        }
    }
}

/// The Gaussian weight of a splat at a pixel offset, in [0, 1].
pub open spec fn gaussian_spec(dx: int, dy: int, ia: int, ib: int, ic: int) -> int {
    match q_form_spec(dx, dy, ia, ib, ic) {
        None => 0,
        Some(q) => if q > Q_CUTOFF as int {
            0
        } else {
            falloff_spec(q)
        },
    }
}

/// Evaluates the 2D Gaussian weight of a splat at a pixel offset.
pub fn evaluate_2d_gaussian(dx: i64, dy: i64, inv_cov_a: i64, inv_cov_b: i64, inv_cov_c: i64) -> (g:
    u32)
    requires
        fp_abs(dx as int) <= DX_LIMIT as int,
        fp_abs(dy as int) <= DX_LIMIT as int,
        fp_abs(inv_cov_a as int) <= INV_COV_MAX as int,
        fp_abs(inv_cov_b as int) <= INV_COV_MAX as int,
        fp_abs(inv_cov_c as int) <= INV_COV_MAX as int,
    ensures
        g == gaussian_spec(
            dx as int,
            dy as int,
            inv_cov_a as int,
            inv_cov_b as int,
            inv_cov_c as int,
        ),
        g <= FP as u32,
{
    let txx = match gmul(dx, dx) {
        Some(t) => t,
        None => {
            return 0;
        },
    };
    let txy = match gmul(dx, dy) {
        Some(t) => t,
        None => {
            return 0;
        },
    };
    let tyy = match gmul(dy, dy) {
        Some(t) => t,
        None => {
            return 0;
        },
    };
    let qa = match gmul(txx, inv_cov_a) {
        Some(t) => t,
        None => {
            return 0;
        },
    };
    let qb = match gmul(txy, inv_cov_b) {
        Some(t) => t,
        None => {
            return 0;
        },
    };
    let qc = match gmul(tyy, inv_cov_c) {
        Some(t) => t,
        None => {
            return 0;
        },
    };
    let q = qa + 2 * qb + qc;
    if q > Q_CUTOFF {
        return 0;
    }
    if q <= 0 {
        return FP as u32;
    }
    let u = (q as u64) / 2;
    let t = u * LOG2E / 65536;
    let n = t / 65536;
    let f = t % 65536;
    proof {
        assert(f * f < 0x1_0000_0000u64) by (nonlinear_arith)
            requires
                f < 65536u64,
        ;
    }
    let f2 = f * f / 65536;
    proof {
        assert(f2 * f < 0x1_0000_0000u64) by (nonlinear_arith)
            requires
                f < 65536u64 && f2 < 65536u64,
        ;
    }
    let f3 = f2 * f / 65536;
    let p = 65536i64 + (EXP_C2 * f2 / 65536) as i64 - (LN2 * f / 65536) as i64 - (EXP_C3 * f3
        / 65536) as i64;
    let pc: i64 = if p < 0 {
        0
    } else if p > 65536 {
        65536
    } else {
        p
    };
    let mut g = pc as u64;
    let mut i: u64 = 0;
    proof {
        lemma_halve_bounds(pc as int, n as int);
    }
    while i < n
        invariant
            i <= n,
            g == halve_n(pc as int, i as int),
            g <= 65536,
        decreases n - i,
    {
        g = g / 2;
        i = i + 1;
    }
    g as u32
}

/// One pixel's state: color, accumulated alpha, and recorded depth.
pub struct PixelState {
    pub color: Rgb,
    pub alpha: u32,
    pub depth: i64,
}

/// One front-to-back blend step at a pixel.  A saturated pixel, a weight
/// under the thresholds, or a far-off offset leaves the pixel unchanged;
/// otherwise the splat's color is added with weight alpha*(1 - dst) and the
/// accumulated alpha grows by that weight.
pub open spec fn blend_spec(pix: PixelState, s: ProjectedSplat, dx: int, dy: int) -> PixelState {
    if pix.alpha >= SATURATION_EPSILON {
        pix
    } else {
        let g = gaussian_spec(dx, dy, s.inv_cov_a as int, s.inv_cov_b as int, s.inv_cov_c as int);
        if g < MIN_GAUSSIAN_CONTRIBUTION as int {
            pix
        } else {
            let a_s = (s.opacity as int) * g / 65536;
            let w = a_s * (65536 - pix.alpha as int) / 65536;
            if w < MIN_BLEND_WEIGHT as int {
                pix
            } else {
                let nr = blend_channel_spec(pix.color.r as int, s.color.r as int, w);
                let ng = blend_channel_spec(pix.color.g as int, s.color.g as int, w);
                let nb = blend_channel_spec(pix.color.b as int, s.color.b as int, w);
                let na = pix.alpha as int + w;
                PixelState {
                    color: Rgb { r: nr as u8, g: ng as u8, b: nb as u8 },
                    alpha: na as u32,
                    depth: if na >= SATURATION_EPSILON as int {
                        s.depth
                    } else {
                        pix.depth
                    },
                }
            }
        }
    }
}

/// One color channel blended: existing + new * weight, saturating at 255.
pub open spec fn blend_channel_spec(existing: int, new: int, w: int) -> int {
    let v = existing + new * w / 65536;
    if v > 255 {
        255
    } else {
        v
    }
}

/// Blends one splat into one pixel.
pub fn blend_pixel(pix: PixelState, s: &ProjectedSplat, dx: i64, dy: i64) -> (r: PixelState)
    requires
        pix.alpha <= FP as u32,
        projected_wf(*s),
        fp_abs(dx as int) <= DX_LIMIT as int,
        fp_abs(dy as int) <= DX_LIMIT as int,
    ensures
        r == blend_spec(pix, *s, dx as int, dy as int),
        pix.alpha <= r.alpha <= FP as u32,
{
    proof {
        lemma_blend_alpha(pix, *s, dx as int, dy as int);
    }
    if pix.alpha >= SATURATION_EPSILON {
        return pix;
    }
    let g = evaluate_2d_gaussian(dx, dy, s.inv_cov_a, s.inv_cov_b, s.inv_cov_c);
    if g < MIN_GAUSSIAN_CONTRIBUTION {
        return pix;
    }
    proof {
        assert((s.opacity as int) * (g as int) <= 0x1_0000_0000int) by (nonlinear_arith)
            requires
                0 <= (s.opacity as int) && (s.opacity as int) <= 65536,
                0 <= (g as int) && (g as int) <= 65536,
        ;
        lemma_scale_le(s.opacity as int, g as int);
    }
    let a_s = ((s.opacity as u64) * (g as u64) / 65536) as u32;
    proof {
        assert((a_s as int) * (65536 - pix.alpha as int) <= 0x1_0000_0000int) by (nonlinear_arith)
            requires
                0 <= (a_s as int) && (a_s as int) <= 65536,
                0 <= 65536 - (pix.alpha as int) && 65536 - (pix.alpha as int) <= 65536,
        ;
        lemma_scale_le(a_s as int, 65536 - pix.alpha as int);
    }
    let w = ((a_s as u64) * ((FP as u32 - pix.alpha) as u64) / 65536) as u32;
    if w < MIN_BLEND_WEIGHT {
        return pix;
    }
    let nr = blend_component(pix.color.r, s.color.r, w);
    let ng = blend_component(pix.color.g, s.color.g, w);
    let nb = blend_component(pix.color.b, s.color.b, w);
    let na = pix.alpha + w;
    PixelState {
        color: Rgb { r: nr, g: ng, b: nb },
        alpha: na,
        depth: if na >= SATURATION_EPSILON {
            s.depth
        } else {
            pix.depth
        },
    }
}

/// Blends one color channel, saturating at 255.
pub fn blend_component(existing: u8, new: u8, weight: u32) -> (r: u8)
    requires
        weight <= FP as u32,
    ensures
        r == blend_channel_spec(existing as int, new as int, weight as int),
{
    proof {
        assert((new as int) * (weight as int) <= 0x100_0000int) by (nonlinear_arith)
            requires
                0 <= (new as int) && (new as int) < 256,
                0 <= (weight as int) && (weight as int) <= 65536,
        ;
    }
    let v = existing as u32 + (new as u32) * weight / 65536;
    if v > 255 {
        255
    } else {
        v as u8
    }
}

/// A product with a factor at most one (in fixed point) never exceeds the
/// other factor.
pub proof fn lemma_scale_le(x: int, y: int)
    by (nonlinear_arith)
    requires
        0 <= x <= 65536,
        0 <= y,
    ensures
        0 <= x * y / 65536 <= y,
{
}

/// The blend step only ever raises a pixel's alpha, and never past one.
pub proof fn lemma_blend_alpha(pix: PixelState, s: ProjectedSplat, dx: int, dy: int)
    requires
        pix.alpha <= FP as u32,
        s.opacity <= FP as u32,
    ensures
        pix.alpha <= blend_spec(pix, s, dx, dy).alpha <= FP as u32,
{
    let g = gaussian_spec(dx, dy, s.inv_cov_a as int, s.inv_cov_b as int, s.inv_cov_c as int);
    if pix.alpha < SATURATION_EPSILON && g >= MIN_GAUSSIAN_CONTRIBUTION as int {
        assert(g <= 65536) by {
            match q_form_spec(
                dx,
                dy,
                s.inv_cov_a as int,
                s.inv_cov_b as int,
                s.inv_cov_c as int,
            ) {
                None => {},
                Some(q) => {
                    if q > 0 && q <= Q_CUTOFF as int {
                        let u = q / 2;
                        let t = u * (LOG2E as int) / 65536;
                        let n = t / 65536;
                        let f = t % 65536;
                        let f2 = f * f / 65536;
                        let f3 = f2 * f / 65536;
                        let p = 65536 + (EXP_C2 as int) * f2 / 65536 - (LN2 as int) * f / 65536 - (
                        EXP_C3 as int) * f3 / 65536;
                        let pc = if p < 0 {
                            0int
                        } else if p > 65536 {
                            65536int
                        } else {
                            p
                        };
                        lemma_halve_bounds(pc, n);
                    }
                },
            }
        }
        let a_s = (s.opacity as int) * g / 65536;
        let w = a_s * (65536 - pix.alpha as int) / 65536;
        assert(0 <= a_s <= 65536) by {
            lemma_scale_le(s.opacity as int, g);
            lemma_scale_le(g, s.opacity as int);
            assert(a_s * 65536 <= 65536 * 65536 ==> a_s <= 65536) by (nonlinear_arith);
            assert((s.opacity as int) * g <= 65536 * 65536) by (nonlinear_arith)
                requires
                    0 <= (s.opacity as int) && (s.opacity as int) <= 65536,
                    0 <= g <= 65536,
            ;
        }
        lemma_scale_le(a_s, 65536 - pix.alpha as int);
    }
}

/// The CPU pixel buffer: three parallel planes of color, accumulated alpha,
/// and the depth of the first saturating contributor.
pub struct RenderState {
    pub framebuffer: Vec<Rgb>,
    pub alpha_buffer: Vec<u32>,
    pub depth_buffer: Vec<i64>,
    pub width: usize,
    pub height: usize,
}

/// The planes cover width * height pixels and alpha stays within [0, 1].
pub open spec fn render_state_wf(st: RenderState) -> bool {
    &&& st.width <= DIM_MAX
    &&& st.height <= DIM_MAX
    &&& st.framebuffer.len() == st.width * st.height
    &&& st.alpha_buffer.len() == st.width * st.height
    &&& st.depth_buffer.len() == st.width * st.height
    &&& forall|i: int| 0 <= i < st.alpha_buffer.len() ==> #[trigger] st.alpha_buffer@[i] <= FP as u32
}

/// Resizes the pixel planes to a new screen size, resetting every pixel to
/// black, transparent, and unset depth.  A matching size is left untouched.
pub fn resize_render_state(render_state: &mut RenderState, width: usize, height: usize) -> (nothing:
    ())
    requires
        render_state_wf(*old(render_state)),
        width <= DIM_MAX,
        height <= DIM_MAX,
    ensures
        render_state_wf(*final(render_state)),
        final(render_state).width == width,
        final(render_state).height == height,
        old(render_state).width == width && old(render_state).height == height ==> *final(render_state) == *old(render_state),
        !(old(render_state).width == width && old(render_state).height == height) ==> {
            &&& forall|i: int|
                0 <= i < final(render_state).framebuffer.len() ==> #[trigger] final(render_state).framebuffer@[i] == (Rgb { r: 0, g: 0, b: 0 })
            &&& forall|i: int|
                0 <= i < final(render_state).alpha_buffer.len() ==> #[trigger] final(render_state).alpha_buffer@[i] == 0
            &&& forall|i: int|
                0 <= i < final(render_state).depth_buffer.len() ==> #[trigger] final(render_state).depth_buffer@[i] == i64::MAX
        },
{
    if render_state.width == width && render_state.height == height {
        return ;
    }
    proof {
        assert(width * height <= 0x1000_0000) by (nonlinear_arith)
            requires
                width <= 16384usize,
                height <= 16384usize,
        ;
    }
    let len = width * height;
    let mut fb: Vec<Rgb> = Vec::new();
    let mut al: Vec<u32> = Vec::new();
    let mut de: Vec<i64> = Vec::new();
    let mut i: usize = 0;
    while i < len
        invariant
            i <= len,
            fb.len() == i,
            al.len() == i,
            de.len() == i,
            forall|k: int| 0 <= k < i ==> #[trigger] fb@[k] == (Rgb { r: 0, g: 0, b: 0 }),
            forall|k: int| 0 <= k < i ==> #[trigger] al@[k] == 0,
            forall|k: int| 0 <= k < i ==> #[trigger] de@[k] == i64::MAX,
        decreases len - i,
    {
        fb.push(Rgb { r: 0, g: 0, b: 0 });
        al.push(0);
        de.push(i64::MAX);
        i = i + 1;
    }
    render_state.framebuffer = fb;
    render_state.alpha_buffer = al;
    render_state.depth_buffer = de;
    render_state.width = width;
    render_state.height = height;
}

/// Resets every pixel to black, transparent, and unset depth.
pub fn clear_framebuffer(render_state: &mut RenderState) -> (nothing: ())
    requires
        render_state_wf(*old(render_state)),
    ensures
        render_state_wf(*final(render_state)),
        final(render_state).width == old(render_state).width,
        final(render_state).height == old(render_state).height,
        final(render_state).framebuffer.len() == old(render_state).framebuffer.len(),
        forall|i: int|
            0 <= i < final(render_state).framebuffer.len() ==> #[trigger] final(render_state).framebuffer@[i] == (Rgb { r: 0, g: 0, b: 0 }),
        forall|i: int|
            0 <= i < final(render_state).alpha_buffer.len() ==> #[trigger] final(render_state).alpha_buffer@[i] == 0,
        forall|i: int|
            0 <= i < final(render_state).depth_buffer.len() ==> #[trigger] final(render_state).depth_buffer@[i] == i64::MAX,
{
    let len = render_state.framebuffer.len();
    let mut fb: Vec<Rgb> = Vec::new();
    let mut al: Vec<u32> = Vec::new();
    let mut de: Vec<i64> = Vec::new();
    let mut i: usize = 0;
    while i < len
        invariant
            i <= len,
            fb.len() == i,
            al.len() == i,
            de.len() == i,
            forall|k: int| 0 <= k < i ==> #[trigger] fb@[k] == (Rgb { r: 0, g: 0, b: 0 }),
            forall|k: int| 0 <= k < i ==> #[trigger] al@[k] == 0,
            forall|k: int| 0 <= k < i ==> #[trigger] de@[k] == i64::MAX,
        decreases len - i,
    {
        fb.push(Rgb { r: 0, g: 0, b: 0 });
        al.push(0);
        de.push(i64::MAX);
        i = i + 1;
    }
    render_state.framebuffer = fb;
    render_state.alpha_buffer = al;
    render_state.depth_buffer = de;
}

/// The state of a pixel read out of the planes.
pub open spec fn pixel_at(st: RenderState, px: int, py: int) -> PixelState {
    PixelState {
        color: st.framebuffer@[py * st.width + px],
        alpha: st.alpha_buffer@[py * st.width + px],
        depth: st.depth_buffer@[py * st.width + px],
    }
}

/// First pixel column of a splat's clipped bounding box.
pub open spec fn box_min_spec(center: int, radius: int) -> int {
    if center - radius <= 0 {
        0
    } else {
        (center - radius) / 65536
    }
}

/// Last pixel column of a splat's clipped bounding box (-1 when empty).
pub open spec fn box_max_spec(center: int, radius: int, dim: int) -> int {
    if center + radius < 0 {
        -1
    } else {
        let v = (center + radius + 65535) / 65536;
        if v > dim - 1 {
            dim - 1
        } else {
            v
        }
    }
}

/// Whether a splat's clipped bounding box covers a pixel.
pub open spec fn covers_spec(s: ProjectedSplat, px: int, py: int, w: int, h: int) -> bool {
    &&& box_min_spec(s.screen_x as int, s.radius_x as int) <= px <= box_max_spec(
        s.screen_x as int,
        s.radius_x as int,
        w,
    )
    &&& box_min_spec(s.screen_y as int, s.radius_y as int) <= py <= box_max_spec(
        s.screen_y as int,
        s.radius_y as int,
        h,
    )
}

/// Offset of a pixel's center from a splat center, in fixed point.
pub open spec fn off_spec(p: int, center: int) -> int {
    p * 65536 + 32768 - center
}

/// The final state of one pixel: the fold, in splat order, of the blend
/// step over the splats whose clipped box covers the pixel.
pub open spec fn raster_pixel_spec(
    splats: Seq<ProjectedSplat>,
    px: int,
    py: int,
    w: int,
    h: int,
    init: PixelState,
) -> PixelState
    decreases splats.len(),
{
    if splats.len() == 0 {
        init
    } else {
        let prev = raster_pixel_spec(splats.drop_last(), px, py, w, h, init);
        let s = splats.last();
        if covers_spec(s, px, py, w, h) {
            blend_spec(prev, s, off_spec(px, s.screen_x as int), off_spec(py, s.screen_y as int))
        } else {
            prev
        }
    }
}

/// The fold only ever raises a pixel's alpha, and never past one.
pub proof fn lemma_raster_alpha_monotone(
    splats: Seq<ProjectedSplat>,
    px: int,
    py: int,
    w: int,
    h: int,
    init: PixelState,
)
    requires
        init.alpha <= FP as u32,
        forall|i: int| 0 <= i < splats.len() ==> (#[trigger] splats[i]).opacity <= FP as u32,
    ensures
        init.alpha <= raster_pixel_spec(splats, px, py, w, h, init).alpha <= FP as u32,
    decreases splats.len(),
{
    if splats.len() > 0 {
        lemma_raster_alpha_monotone(splats.drop_last(), px, py, w, h, init);
        let prev = raster_pixel_spec(splats.drop_last(), px, py, w, h, init);
        let s = splats.last();
        lemma_blend_alpha(
            prev,
            s,
            off_spec(px, s.screen_x as int),
            off_spec(py, s.screen_y as int),
        );
    }
}

/// Row-major pixel indices stay in range and name pixels uniquely.
pub proof fn lemma_row_major(w: int, h: int, px: int, py: int, qx: int, qy: int)
    by (nonlinear_arith)
    requires
        0 <= px < w,
        0 <= py < h,
        0 <= qx < w,
        0 <= qy < h,
    ensures
        0 <= py * w + px < h * w,
        0 <= py * w + px < w * h,
        py * w + px == qy * w + qx <==> px == qx && py == qy,
{
}

/// Folds one pixel through every splat that covers it, in order.
fn raster_one_pixel(
    projected: &Vec<ProjectedSplat>,
    px: usize,
    py: usize,
    w: usize,
    h: usize,
    init: PixelState,
) -> (r: PixelState)
    requires
        forall|i: int| 0 <= i < projected.len() ==> projected_wf(#[trigger] projected@[i]),
        px < w <= DIM_MAX,
        py < h <= DIM_MAX,
        init.alpha <= FP as u32,
    ensures
        r == raster_pixel_spec(projected@, px as int, py as int, w as int, h as int, init),
        r.alpha <= FP as u32,
{
    let n = projected.len();
    let mut pix = init;
    let mut si: usize = 0;
    proof {
        assert(projected@.take(0) =~= Seq::<ProjectedSplat>::empty());
    }
    while si < n
        invariant
            si <= n,
            n == projected.len(),
            forall|i: int| 0 <= i < projected.len() ==> projected_wf(#[trigger] projected@[i]),
            px < w <= DIM_MAX,
            py < h <= DIM_MAX,
            init.alpha <= FP as u32,
            pix == raster_pixel_spec(
                projected@.take(si as int),
                px as int,
                py as int,
                w as int,
                h as int,
                init,
            ),
            pix.alpha <= FP as u32,
        decreases n - si,
    {
        let s = projected[si];
        proof {
            assert(projected@.take(si + 1).drop_last() =~= projected@.take(si as int));
            assert(projected@.take(si + 1).last() == projected@[si as int]);
        }
        let min_x = if s.screen_x - s.radius_x <= 0 {
            0i64
        } else {
            (s.screen_x - s.radius_x) / 65536
        };
        let max_x = if s.screen_x + s.radius_x < 0 {
            -1i64
        } else {
            let v = (s.screen_x + s.radius_x + 65535) / 65536;
            if v > w as i64 - 1 {
                w as i64 - 1
            } else {
                v
            }
        };
        let min_y = if s.screen_y - s.radius_y <= 0 {
            0i64
        } else {
            (s.screen_y - s.radius_y) / 65536
        };
        let max_y = if s.screen_y + s.radius_y < 0 {
            -1i64
        } else {
            let v = (s.screen_y + s.radius_y + 65535) / 65536;
            if v > h as i64 - 1 {
                h as i64 - 1
            } else {
                v
            }
        };
        if min_x <= px as i64 && px as i64 <= max_x && min_y <= py as i64 && py as i64 <= max_y {
            let dx = (px as i64) * 65536 + 32768 - s.screen_x;
            let dy = (py as i64) * 65536 + 32768 - s.screen_y;
            pix = blend_pixel(pix, &s, dx, dy);
        }
        si = si + 1;
    }
    proof {
        assert(projected@.take(n as int) =~= projected@);
    }
    pix
}

/// Rasterizes depth-sorted splats into the pixel buffer: every pixel ends
/// as the blend fold of the splats covering it, applied in list order.
pub fn rasterize_splats(
    projected_splats: &Vec<ProjectedSplat>,
    render_state: &mut RenderState,
    width: usize,
    height: usize,
) -> (nothing: ())
    requires
        render_state_wf(*old(render_state)),
        old(render_state).width == width,
        old(render_state).height == height,
        forall|i: int|
            0 <= i < projected_splats.len() ==> projected_wf(#[trigger] projected_splats@[i]),
    ensures
        render_state_wf(*final(render_state)),
        final(render_state).width == width,
        final(render_state).height == height,
        forall|px: int, py: int|
            0 <= px < width && 0 <= py < height ==> pixel_at(*final(render_state), px, py)
                == raster_pixel_spec(
                projected_splats@,
                px,
                py,
                width as int,
                height as int,
                pixel_at(*old(render_state), px, py),
            ),
{
    let ghost init_state = *render_state;
    let mut py: usize = 0;
    while py < height
        invariant
            py <= height,
            render_state_wf(*render_state),
            render_state.width == width,
            render_state.height == height,
            render_state_wf(init_state),
            init_state.width == width,
            init_state.height == height,
            forall|i: int|
                0 <= i < projected_splats.len() ==> projected_wf(#[trigger] projected_splats@[i]),
            forall|qx: int, qy: int|
                0 <= qx < width && 0 <= qy < height ==> pixel_at(*render_state, qx, qy) == (
                if qy < py {
                    raster_pixel_spec(
                        projected_splats@,
                        qx,
                        qy,
                        width as int,
                        height as int,
                        pixel_at(init_state, qx, qy),
                    )
                } else {
                    pixel_at(init_state, qx, qy)
                }),
        decreases height - py,
    {
        let mut px: usize = 0;
        while px < width
            invariant
                px <= width,
                py < height,
                render_state_wf(*render_state),
                render_state.width == width,
                render_state.height == height,
                render_state_wf(init_state),
                init_state.width == width,
                init_state.height == height,
                forall|i: int|
                    0 <= i < projected_splats.len() ==> projected_wf(
                        #[trigger] projected_splats@[i],
                    ),
                forall|qx: int, qy: int|
                    0 <= qx < width && 0 <= qy < height ==> pixel_at(*render_state, qx, qy) == (
                    if qy < py || (qy == py && qx < px) {
                        raster_pixel_spec(
                            projected_splats@,
                            qx,
                            qy,
                            width as int,
                            height as int,
                            pixel_at(init_state, qx, qy),
                        )
                    } else {
                        pixel_at(init_state, qx, qy)
                    }),
            decreases width - px,
        {
            proof {
                lemma_row_major(width as int, height as int, px as int, py as int, 0, 0);
            }
            let idx = py * width + px;
            let init_pix = PixelState {
                color: render_state.framebuffer[idx],
                alpha: render_state.alpha_buffer[idx],
                depth: render_state.depth_buffer[idx],
            };
            proof {
                assert(idx == (py as int) * (init_state.width as int) + (px as int));
                assert(pixel_at(*render_state, px as int, py as int) == pixel_at(
                    init_state,
                    px as int,
                    py as int,
                ));
                assert(init_pix == pixel_at(*render_state, px as int, py as int));
            }
            let pix = raster_one_pixel(projected_splats, px, py, width, height, init_pix);
            let ghost pre = *render_state;
            render_state.framebuffer.set(idx, pix.color);
            render_state.alpha_buffer.set(idx, pix.alpha);
            render_state.depth_buffer.set(idx, pix.depth);
            proof {
                assert forall|qx: int, qy: int|
                    0 <= qx < width && 0 <= qy < height implies pixel_at(*render_state, qx, qy)
                    == (if qy < py || (qy == py && qx < px + 1) {
                    raster_pixel_spec(
                        projected_splats@,
                        qx,
                        qy,
                        width as int,
                        height as int,
                        pixel_at(init_state, qx, qy),
                    )
                } else {
                    pixel_at(init_state, qx, qy)
                }) by {
                    lemma_row_major(width as int, height as int, px as int, py as int, qx, qy);
                    lemma_row_major(width as int, height as int, qx, qy, px as int, py as int);
                    if qx == px && qy == py {
                        assert(pixel_at(*render_state, qx, qy) == pix);
                    } else {
                        assert(qy * (width as int) + qx != (py as int) * (width as int) + (
                        px as int));
                        let k = qy * (width as int) + qx;
                        assert(0 <= k < render_state.framebuffer@.len());
                        assert(render_state.framebuffer@[k] == pre.framebuffer@[k]);
                        assert(render_state.alpha_buffer@[k] == pre.alpha_buffer@[k]);
                        assert(render_state.depth_buffer@[k] == pre.depth_buffer@[k]);
                        assert(pixel_at(*render_state, qx, qy) == pixel_at(pre, qx, qy));
                        assert(pixel_at(pre, qx, qy) == (if qy < py || (qy == py && qx < px) {
                            raster_pixel_spec(
                                projected_splats@,
                                qx,
                                qy,
                                width as int,
                                height as int,
                                pixel_at(init_state, qx, qy),
                            )
                        } else {
                            pixel_at(init_state, qx, qy)
                        }));
                    }
                }
            }
            px = px + 1;
        }
        py = py + 1;
    }
}

} // verus!
