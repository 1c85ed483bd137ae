//! Projection and culling: turns the scene's splats into the dense list of
//! screen-space splats a rasterizer consumes.
//!
//! A splat is discarded when its center leaves the depth range or the
//! broadened screen bounds, when its projected ellipse degenerates, when its
//! radius falls under the minimum, when its box misses the screen, or when a
//! guarded fixed-point step leaves the documented range.

use vstd::prelude::*;

use crate::camera::{camera_wf, focal_lengths_spec, world_to_view_spec, Camera, DIM_MAX};
use crate::fp::{fp_abs, gdiv, gdiv_spec, gmul, gmul_spec, FP};

use crate::math::{Sym3, Vec3};
use crate::splat::{
    cov2_spec, cov3_spec, compute_2d_gaussian_extent, compute_3d_covariance, extent_spec,
    invert_2x2_covariance, invert_spec, project_covariance_to_2d, projected_wf, splat_wf,
    ProjectedSplat, Splat, FOCAL_MAX, MIN_SPLAT_RADIUS,
};

verus! {

/// Broad culling margin around the screen (120 px).
pub const BROAD_MARGIN: i64 = 7864320;

/// What projecting one splat yields: its screen-space form, or `None` when
/// any cull or range guard rejects it.
pub open spec fn project_splat_spec(
    s: Splat,
    cam: Camera,
    width: int,
    height: int,
    index: usize,
) -> Option<ProjectedSplat> {
    let (fx, fy) = focal_lengths_spec(cam, width, height);
    let (vx, vy, vz) = world_to_view_spec(cam, s.position);
    if vz < cam.near as int || vz > cam.far as int {
        None
    } else {
        let w_fp = width * (FP as int);
        let h_fp = height * (FP as int);
        let j00o = gdiv_spec(fx, vz);
        let j11o = gdiv_spec(fy, vz);
        if j00o is None || j11o is None {
            None
        } else {
            let sxro = gmul_spec(j00o->0, vx);
            let syro = gmul_spec(j11o->0, vy);
            if sxro is None || syro is None {
                None
            } else {
                let sx = w_fp / 2 + sxro->0;
                let sy = h_fp / 2 - syro->0;
                if sx < -BROAD_MARGIN || sx > w_fp + BROAD_MARGIN || sy < -BROAD_MARGIN || sy
                    > h_fp + BROAD_MARGIN {
                    None
                } else {
                    let (cxx, cxy, cxz, cyy, cyz, czz) = cov3_spec(s.rotation, s.scale);
                    let c3 = Sym3 {
                        xx: cxx as i64,
                        xy: cxy as i64,
                        xz: cxz as i64,
                        yy: cyy as i64,
                        yz: cyz as i64,
                        zz: czz as i64,
                    };
                    let pv = Vec3 { x: vx as i64, y: vy as i64, z: vz as i64 };
                    let c2o = cov2_spec(c3, view_rot_spec(cam), pv, fx, fy);
                    if c2o is None {
                        None
                    } else {
                        let (a, b, c) = c2o->0;
                        if a <= 0 || c <= 0 {
                            None
                        } else {
                            let (rx, ry) = extent_spec(a, b, c);
                            if rx < MIN_SPLAT_RADIUS as int || ry < MIN_SPLAT_RADIUS as int {
                                None
                            } else if sx + rx < 0 || sx - rx > w_fp || sy + ry < 0 || sy - ry
                                > h_fp {
                                None
                            } else {
                                let invo = invert_spec(a, b, c);
                                if invo is None {
                                    None
                                } else {
                                    let (ia, ib, ic) = invo->0;
                                    Some(
                                        ProjectedSplat {
                                            screen_x: sx as i64,
                                            screen_y: sy as i64,
                                            depth: vz as i64,
                                            radius_x: rx as i64,
                                            radius_y: ry as i64,
                                            color: s.color,
                                            opacity: s.opacity,
                                            inv_cov_a: ia as i64,
                                            inv_cov_b: ib as i64,
                                            inv_cov_c: ic as i64,
                                            original_index: index,
                                        },
                                    )
                                }
                            }
                        }
                    }
                }
            }
        }
    }
}

/// The camera basis as the row matrix the covariance projection uses.
pub open spec fn view_rot_spec(c: Camera) -> crate::math::Mat3 {
    crate::math::Mat3 {
        m00: c.right.x,
        m01: c.right.y,
        m02: c.right.z,
        m10: c.up.x,
        m11: c.up.y,
        m12: c.up.z,
        m20: c.forward.x,
        m21: c.forward.y,
        m22: c.forward.z,
    }
}

/// Projects one splat, applying every cull of the pipeline.
pub fn project_splat(
    s: &Splat,
    cam: &Camera,
    width: usize,
    height: usize,
    fx: i64,
    fy: i64,
    index: usize,
) -> (r: Option<ProjectedSplat>)
    requires
        splat_wf(*s),
        camera_wf(*cam),
        1 <= width <= DIM_MAX,
        1 <= height <= DIM_MAX,
        (fx as int, fy as int) == focal_lengths_spec(*cam, width as int, height as int),
        0 <= fx <= FOCAL_MAX,
        0 <= fy <= FOCAL_MAX,
    ensures
        r == project_splat_spec(*s, *cam, width as int, height as int, index),
        r is Some ==> projected_wf(r->0),
        r is Some ==> r->0.original_index == index,
        r is Some ==> cam.near <= r->0.depth <= cam.far,
{
    let v = cam.world_to_view(s.position);
    if v.z < cam.near || v.z > cam.far {
        return None;
    }
    let w_fp = (width as i64) * FP;
    let h_fp = (height as i64) * FP;
    let j00 = match gdiv(fx, v.z) {
        Some(t) => t,
        None => {
            return None;
        },
    };
    let j11 = match gdiv(fy, v.z) {
        Some(t) => t,
        None => {
            return None;
        },
    };
    let sxr = match gmul(j00, v.x) {
        Some(t) => t,
        None => {
            return None;
        },
    };
    let syr = match gmul(j11, v.y) {
        Some(t) => t,
        None => {
            return None;
        },
    };
    let sx = w_fp / 2 + sxr;
    let sy = h_fp / 2 - syr;
    if sx < -BROAD_MARGIN || sx > w_fp + BROAD_MARGIN || sy < -BROAD_MARGIN || sy > h_fp
        + BROAD_MARGIN {
        return None;
    }
    let c3 = compute_3d_covariance(s.scale, s.rotation);
    let (a, b, c) = match project_covariance_to_2d(c3, cam.view_rotation(), v, fx, fy) {
        Some(t) => t,
        None => {
            return None;
        },
    };
    if a <= 0 || c <= 0 {
        return None;
    }
    let (rx, ry) = compute_2d_gaussian_extent(a, b, c);
    if rx < MIN_SPLAT_RADIUS || ry < MIN_SPLAT_RADIUS {
        return None;
    }
    if sx + rx < 0 || sx - rx > w_fp || sy + ry < 0 || sy - ry > h_fp {
        return None;
    }
    let (ia, ib, ic) = match invert_2x2_covariance(a, b, c) {
        Some(t) => t,
        None => {
            return None;
        },
    };
    Some(
        ProjectedSplat {
            screen_x: sx,
            screen_y: sy,
            depth: v.z,
            radius_x: rx,
            radius_y: ry,
            color: s.color,
            opacity: s.opacity,
            inv_cov_a: ia,
            inv_cov_b: ib,
            inv_cov_c: ic,
            original_index: index,
        },
    )
}

/// What projecting a whole scene yields: the surviving splats in scene
/// order, each carrying its original index.
pub open spec fn project_seq_spec(
    splats: Seq<Splat>,
    cam: Camera,
    width: int,
    height: int,
) -> Seq<ProjectedSplat>
    decreases splats.len(),
{
    if splats.len() == 0 {
        Seq::empty()
    } else {
        let prev = project_seq_spec(splats.drop_last(), cam, width, height);
        match project_splat_spec(
            splats.last(),
            cam,
            width,
            height,
            (splats.len() - 1) as usize,
        ) {
            Some(p) => prev.push(p),
            None => prev,
        }
    }
}

/// No more splats survive projection than entered it.
pub proof fn lemma_project_seq_len(splats: Seq<Splat>, cam: Camera, width: int, height: int)
    ensures
        project_seq_spec(splats, cam, width, height).len() <= splats.len(),
    decreases splats.len(),
{
    if splats.len() > 0 {
        lemma_project_seq_len(splats.drop_last(), cam, width, height);
    }
}

/// Projects and culls every splat of the scene, in order.
pub fn project_and_cull_splats(
    splats: &Vec<Splat>,
    projected_splats: &mut Vec<ProjectedSplat>,
    camera: &Camera,
    screen_width: usize,
    screen_height: usize,
    visible_count: &mut usize,
) -> (nothing: ())
    requires
        forall|i: int| 0 <= i < splats.len() ==> splat_wf(#[trigger] splats@[i]),
        camera_wf(*camera),
        1 <= screen_width <= DIM_MAX,
        1 <= screen_height <= DIM_MAX,
    ensures
        final(projected_splats)@ == project_seq_spec(
            splats@,
            *camera,
            screen_width as int,
            screen_height as int,
        ),
        *final(visible_count) == final(projected_splats)@.len(),
        forall|i: int|
            0 <= i < final(projected_splats)@.len() ==> projected_wf(
                #[trigger] final(projected_splats)@[i],
            ),
        forall|i: int|
            0 <= i < final(projected_splats)@.len() ==> camera.near <= (
            #[trigger] final(projected_splats)@[i]).depth <= camera.far,
{
    let (fx, fy) = camera.focal_lengths(screen_width, screen_height);
    let mut out: Vec<ProjectedSplat> = Vec::new();
    let n = splats.len();
    let mut i: usize = 0;
    proof {
        assert(splats@.take(0) =~= Seq::<Splat>::empty());
    }
    while i < n
        invariant
            i <= n,
            n == splats.len(),
            forall|k: int| 0 <= k < splats.len() ==> splat_wf(#[trigger] splats@[k]),
            camera_wf(*camera),
            1 <= screen_width <= DIM_MAX,
            1 <= screen_height <= DIM_MAX,
            (fx as int, fy as int) == focal_lengths_spec(
                *camera,
                screen_width as int,
                screen_height as int,
            ),
            0 <= fx <= FOCAL_MAX,
            0 <= fy <= FOCAL_MAX,
            out@ == project_seq_spec(
                splats@.take(i as int),
                *camera,
                screen_width as int,
                screen_height as int,
            ),
            forall|k: int| 0 <= k < out@.len() ==> projected_wf(#[trigger] out@[k]),
            forall|k: int|
                0 <= k < out@.len() ==> camera.near <= (#[trigger] out@[k]).depth <= camera.far,
        decreases n - i,
    {
        let ghost pre = splats@.take(i as int);
        proof {
            assert(splats@.take(i + 1).drop_last() =~= splats@.take(i as int));
            assert(splats@.take(i + 1).last() == splats@[i as int]);
        }
        match project_splat(&splats[i], camera, screen_width, screen_height, fx, fy, i) {
            Some(p) => {
                out.push(p);
            },
            None => {},
        }
        i = i + 1;
    }
    proof {
        assert(splats@.take(n as int) =~= splats@);
    }
    let count = out.len();
    *projected_splats = out;
    *visible_count = count;
}

/// Mirrors the scene on the Y or Z axis, as the command line may ask for at
/// load time: the chosen position coordinates are negated, everything else
/// stays.
pub fn flip_scene(splats: &mut Vec<Splat>, flip_y: bool, flip_z: bool) -> (nothing: ())
    requires
        forall|i: int| 0 <= i < old(splats).len() ==> splat_wf(#[trigger] old(splats)@[i]),
    ensures
        final(splats).len() == old(splats).len(),
        forall|i: int|
            0 <= i < final(splats).len() ==> #[trigger] final(splats)@[i] == (Splat {
                position: crate::math::Vec3 {
                    x: old(splats)@[i].position.x,
                    y: if flip_y {
                        (-old(splats)@[i].position.y) as i64
                    } else {
                        old(splats)@[i].position.y
                    },
                    z: if flip_z {
                        (-old(splats)@[i].position.z) as i64
                    } else {
                        old(splats)@[i].position.z
                    },
                },
                ..old(splats)@[i]
            }),
        forall|i: int| 0 <= i < final(splats).len() ==> splat_wf(#[trigger] final(splats)@[i]),
{
    let n = splats.len();
    let mut i: usize = 0;
    while i < n
        invariant
            i <= n,
            n == splats.len(),
            forall|k: int| 0 <= k < n ==> splat_wf(#[trigger] old(splats)@[k]),
            forall|k: int| i <= k < n ==> #[trigger] splats@[k] == old(splats)@[k],
            forall|k: int|
                0 <= k < i ==> #[trigger] splats@[k] == (Splat {
                    position: crate::math::Vec3 {
                        x: old(splats)@[k].position.x,
                        y: if flip_y {
                            (-old(splats)@[k].position.y) as i64
                        } else {
                            old(splats)@[k].position.y
                        },
                        z: if flip_z {
                            (-old(splats)@[k].position.z) as i64
                        } else {
                            old(splats)@[k].position.z
                        },
                    },
                    ..old(splats)@[k]
                }),
            forall|k: int| 0 <= k < i ==> splat_wf(#[trigger] splats@[k]),
        decreases n - i,
    {
        let s = splats[i];
        let ny = if flip_y {
            -s.position.y
        } else {
            s.position.y
        };
        let nz = if flip_z {
            -s.position.z
        } else {
            s.position.z
        };
        splats.set(
            i,
            Splat { position: crate::math::Vec3 { x: s.position.x, y: ny, z: nz }, ..s },
        );
        i = i + 1;
    }
}

/// A splat on the camera axis projects to the screen center, at the
/// camera's distance: with the canonical axis-aligned camera at distance
/// `d` from the origin, an origin splat that survives projection lands at
/// (width/2, height/2) with depth exactly `d`.
pub proof fn lemma_on_axis_projection(
    s: Splat,
    cam: Camera,
    width: int,
    height: int,
    index: usize,
    d: i64,
)
    requires
        s.position == (crate::math::Vec3 { x: 0, y: 0, z: 0 }),
        cam.position == (crate::math::Vec3 { x: 0, y: 0, z: d }),
        cam.right == (crate::math::Vec3 { x: FP, y: 0, z: 0 }),
        cam.up == (crate::math::Vec3 { x: 0, y: FP, z: 0 }),
        cam.forward == (crate::math::Vec3 { x: 0, y: 0, z: (-65536) as i64 }),
        0 < d,
        1 <= width <= DIM_MAX,
        1 <= height <= DIM_MAX,
        project_splat_spec(s, cam, width, height, index) is Some,
    ensures
        ({
            let p = project_splat_spec(s, cam, width, height, index)->0;
            &&& p.screen_x == width * (FP as int) / 2
            &&& p.screen_y == height * (FP as int) / 2
            &&& p.depth == d
        }),
{
    let (vx, vy, vz) = crate::camera::world_to_view_spec(cam, s.position);
    assert(vx == 0 && vy == 0 && vz == d) by {
        crate::fp::lemma_fp_mul_zero(0);
        crate::fp::lemma_fp_mul_zero(0 - d);
        crate::fp::lemma_fp_mul_zero(FP as int);
        crate::fp::lemma_fp_mul_unit(0 - d);
    }
    let (fx, fy) = crate::camera::focal_lengths_spec(cam, width, height);
    let j00o = gdiv_spec(fx, vz);
    let j11o = gdiv_spec(fy, vz);
    assert(j00o is Some && j11o is Some);
    crate::fp::lemma_fp_mul_zero(j00o->0);
    crate::fp::lemma_fp_mul_zero(j11o->0);
    assert(gmul_spec(j00o->0, vx) == Some(0int));
    assert(gmul_spec(j11o->0, vy) == Some(0int));
}

/// The projected covariance of every surviving splat is well formed: both
/// diagonal entries are positive and the determinant is nonzero, so the
/// ellipse is invertible.  The determinant is positive except for the
/// degenerate near-edge-on splats whose truncated form goes indefinite,
/// which blend the same way they always have.
pub proof fn lemma_projected_covariance(s: Splat, cam: Camera, width: int, height: int, index: usize)
    requires
        project_splat_spec(s, cam, width, height, index) is Some,
    ensures
        ({
            let (fx, fy) = crate::camera::focal_lengths_spec(cam, width, height);
            let (vx, vy, vz) = crate::camera::world_to_view_spec(cam, s.position);
            let (cxx, cxy, cxz, cyy, cyz, czz) = cov3_spec(s.rotation, s.scale);
            let c3 = crate::math::Sym3 {
                xx: cxx as i64,
                xy: cxy as i64,
                xz: cxz as i64,
                yy: cyy as i64,
                yz: cyz as i64,
                zz: czz as i64,
            };
            let pv = crate::math::Vec3 { x: vx as i64, y: vy as i64, z: vz as i64 };
            let c2o = cov2_spec(c3, view_rot_spec(cam), pv, fx, fy);
            &&& c2o is Some
            &&& ({
                let (a, b, c) = c2o->0;
                a > 0 && c > 0 && crate::fp::fp_mul_spec(a, c) - crate::fp::fp_mul_spec(b, b) != 0
            })
        }),
{
    let (fx, fy) = crate::camera::focal_lengths_spec(cam, width, height);
    let (vx, vy, vz) = crate::camera::world_to_view_spec(cam, s.position);
    let (cxx, cxy, cxz, cyy, cyz, czz) = cov3_spec(s.rotation, s.scale);
    let c3 = crate::math::Sym3 {
        xx: cxx as i64,
        xy: cxy as i64,
        xz: cxz as i64,
        yy: cyy as i64,
        yz: cyz as i64,
        zz: czz as i64,
    };
    let pv = crate::math::Vec3 { x: vx as i64, y: vy as i64, z: vz as i64 };
    let c2o = cov2_spec(c3, view_rot_spec(cam), pv, fx, fy);
    let (a, b, c) = c2o->0;
    assert(invert_spec(a, b, c) is Some);
}

/// Projects, culls, and depth-sorts the scene for front-to-back blending.
pub fn cpu_project_and_sort(
    splats: &Vec<Splat>,
    projected_splats: &mut Vec<ProjectedSplat>,
    camera: &Camera,
    width: usize,
    height: usize,
    visible_count: &mut usize,
) -> (nothing: ())
    requires
        forall|i: int| 0 <= i < splats.len() ==> splat_wf(#[trigger] splats@[i]),
        camera_wf(*camera),
        1 <= width <= DIM_MAX,
        1 <= height <= DIM_MAX,
    ensures
        crate::sort::sorted_by_depth(final(projected_splats)@),
        final(projected_splats)@.to_multiset() == project_seq_spec(
            splats@,
            *camera,
            width as int,
            height as int,
        ).to_multiset(),
        *final(visible_count) == final(projected_splats)@.len(),
        forall|i: int|
            0 <= i < final(projected_splats)@.len() ==> projected_wf(
                #[trigger] final(projected_splats)@[i],
            ),
{
    project_and_cull_splats(splats, projected_splats, camera, width, height, visible_count);
    let ghost mid = projected_splats@;
    crate::sort::sort_by_depth(projected_splats);
    proof {
        assert forall|i: int|
            0 <= i < projected_splats@.len() implies projected_wf(
            #[trigger] projected_splats@[i],
        ) by {
            assert(mid.contains(projected_splats@[i]));
            let j = choose|j: int| 0 <= j < mid.len() && mid[j] == projected_splats@[i];
            assert(projected_wf(mid[j]));
        }
    }
}

} // verus!
