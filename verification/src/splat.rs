//! Scene splats, their projected screen-space form, and the covariance
//! mathematics that turns a 3D Gaussian into a 2D screen ellipse.
//!
//! Geometry outside the documented fixed-point ranges is culled rather than
//! computed wrongly: every guarded step that leaves the range makes the
//! projector discard the splat.

use vstd::prelude::*;

use crate::fp::{
    fp_abs, fp_mul_b, fp_mul_spec, fp_div_spec, gdiv, gdiv_spec, gmul, gmul_spec, isqrt_u128, isqrt_u64,
    lemma_sqrt_floor_bracket, sqrt_floor, FP, GMAX,
};
use crate::math::{dot3, dot3_spec, mat3_bounded, quat_wf, Mat3, Quat, Sym3, Vec3};

verus! {

/// Largest world-coordinate magnitude a splat or camera position may carry.
pub const POS_MAX: i64 = 0x100_0000_0000;

/// Smallest per-axis scale (about 1e-4, the clamp the scene loaders apply).
pub const SCALE_MIN: i64 = 7;

/// Largest per-axis scale (1024 world units).
pub const SCALE_MAX: i64 = 0x400_0000;

/// Magnitude bound on view-space positions.
pub const VIEW_MAX: i64 = 0x600_0000_0000;

/// Magnitude bound on the entries of a splat's 3D covariance.
pub const COV3_MAX: i64 = 0x4B0_0000_0000;

/// Magnitude bound on focal lengths.
pub const FOCAL_MAX: i64 = 0x100_0000_0000;

/// Tiny diagonal regularizer added to the 2D covariance (about 1e-3).
pub const COV_REG: i64 = 66;

/// Smallest screen radius a splat may have and still be kept (0.3 px).
pub const MIN_SPLAT_RADIUS: i64 = 19660;

/// Magnitude bound on screen coordinates of surviving splats.
pub const SCREEN_LIMIT: i64 = 0x8000_0000;

/// Largest screen radius the extent computation can produce.
pub const RADIUS_MAX: i64 = 0x4_0000_0000;

/// Magnitude bound on inverse-covariance entries of surviving splats.
pub const INV_COV_MAX: i64 = 0x800_0000;

/// Largest far-plane depth.
pub const FAR_LIMIT: i64 = 0x10_0000_0000;

/// An 8-bit RGB color.
#[derive(Clone, Copy, PartialEq, Eq, Structural, Debug)]
pub struct Rgb {
    pub r: u8,
    pub g: u8,
    pub b: u8,
}

/// An immutable scene element: an anisotropic 3D Gaussian.
#[derive(Clone, Copy, PartialEq, Eq, Structural, Debug)]
pub struct Splat {
    pub position: Vec3,
    pub color: Rgb,
    pub opacity: u32,
    pub scale: Vec3,
    pub rotation: Quat,
}

/// The ranges every loaded splat satisfies: bounded position, opacity in
/// [0, 1], clamped positive scales, near-unit rotation.
pub open spec fn splat_wf(s: Splat) -> bool {
    &&& fp_abs(s.position.x as int) <= POS_MAX as int
    &&& fp_abs(s.position.y as int) <= POS_MAX as int
    &&& fp_abs(s.position.z as int) <= POS_MAX as int
    &&& s.opacity <= FP as u32
    &&& SCALE_MIN <= s.scale.x <= SCALE_MAX
    &&& SCALE_MIN <= s.scale.y <= SCALE_MAX
    &&& SCALE_MIN <= s.scale.z <= SCALE_MAX
    &&& quat_wf(s.rotation)
}

/// A splat after projection: screen-space ellipse, depth, and carried color.
#[derive(Clone, Copy, PartialEq, Eq, Structural, Debug)]
pub struct ProjectedSplat {
    pub screen_x: i64,
    pub screen_y: i64,
    pub depth: i64,
    pub radius_x: i64,
    pub radius_y: i64,
    pub color: Rgb,
    pub opacity: u32,
    pub inv_cov_a: i64,
    pub inv_cov_b: i64,
    pub inv_cov_c: i64,
    pub original_index: usize,
}

/// The ranges the projector guarantees of every splat it emits.
pub open spec fn projected_wf(p: ProjectedSplat) -> bool {
    &&& fp_abs(p.screen_x as int) <= SCREEN_LIMIT as int
    &&& fp_abs(p.screen_y as int) <= SCREEN_LIMIT as int
    &&& 0 < p.depth <= FAR_LIMIT
    &&& 0 <= p.radius_x <= RADIUS_MAX
    &&& 0 <= p.radius_y <= RADIUS_MAX
    &&& p.opacity <= FP as u32
    &&& fp_abs(p.inv_cov_a as int) <= INV_COV_MAX as int
    &&& fp_abs(p.inv_cov_b as int) <= INV_COV_MAX as int
    &&& fp_abs(p.inv_cov_c as int) <= INV_COV_MAX as int
}

/// The 3D covariance R * diag(scale^2) * R^T of a splat, entry by entry.
pub open spec fn cov3_spec(rotation: Quat, scale: Vec3) -> (int, int, int, int, int, int) {
    let (r00, r01, r02, r10, r11, r12, r20, r21, r22) = crate::math::quat_rot_spec(rotation);
    let s2x = fp_mul_spec(scale.x as int, scale.x as int);
    let s2y = fp_mul_spec(scale.y as int, scale.y as int);
    let s2z = fp_mul_spec(scale.z as int, scale.z as int);
    (
        dot3_spec(
            fp_mul_spec(r00, r00),
            fp_mul_spec(r01, r01),
            fp_mul_spec(r02, r02),
            s2x,
            s2y,
            s2z,
        ),
        dot3_spec(
            fp_mul_spec(r00, r10),
            fp_mul_spec(r01, r11),
            fp_mul_spec(r02, r12),
            s2x,
            s2y,
            s2z,
        ),
        dot3_spec(
            fp_mul_spec(r00, r20),
            fp_mul_spec(r01, r21),
            fp_mul_spec(r02, r22),
            s2x,
            s2y,
            s2z,
        ),
        dot3_spec(
            fp_mul_spec(r10, r10),
            fp_mul_spec(r11, r11),
            fp_mul_spec(r12, r12),
            s2x,
            s2y,
            s2z,
        ),
        dot3_spec(
            fp_mul_spec(r10, r20),
            fp_mul_spec(r11, r21),
            fp_mul_spec(r12, r22),
            s2x,
            s2y,
            s2z,
        ),
        dot3_spec(
            fp_mul_spec(r20, r20),
            fp_mul_spec(r21, r21),
            fp_mul_spec(r22, r22),
            s2x,
            s2y,
            s2z,
        ),
    )
}

/// Builds the world-space 3D covariance of a splat.
pub fn compute_3d_covariance(scale: Vec3, rotation: Quat) -> (c: Sym3)
    requires
        SCALE_MIN <= scale.x <= SCALE_MAX,
        SCALE_MIN <= scale.y <= SCALE_MAX,
        SCALE_MIN <= scale.z <= SCALE_MAX,
        quat_wf(rotation),
    ensures
        (c.xx as int, c.xy as int, c.xz as int, c.yy as int, c.yz as int, c.zz as int)
            == cov3_spec(rotation, scale),
        crate::math::sym3_bounded(c, COV3_MAX as int),
{
    let ghost sb = SCALE_MAX as int;
    let ghost rb = 5 * FP as int;
    let ghost tb = 25 * FP as int;
    let ghost s2b = 0x10_0000_0000int;
    proof {
        assert(sb * sb == 0x10_0000_0000_0000int) by (nonlinear_arith)
            requires
                sb == 0x400_0000int,
        ;
        assert(rb * rb == 0x19_0000_0000int) by (nonlinear_arith)
            requires
                rb == 327680int,
        ;
        assert(tb * s2b == 0x190_0000_0000_0000int) by (nonlinear_arith)
            requires
                tb == 1638400int && s2b == 0x10_0000_0000int,
        ;
    }
    let r = crate::math::quat_to_rotation_matrix(rotation);
    let s2x = fp_mul_b(scale.x, scale.x, Ghost(sb), Ghost(sb));
    let s2y = fp_mul_b(scale.y, scale.y, Ghost(sb), Ghost(sb));
    let s2z = fp_mul_b(scale.z, scale.z, Ghost(sb), Ghost(sb));
    let xx = dot3(
        fp_mul_b(r.m00, r.m00, Ghost(rb), Ghost(rb)),
        fp_mul_b(r.m01, r.m01, Ghost(rb), Ghost(rb)),
        fp_mul_b(r.m02, r.m02, Ghost(rb), Ghost(rb)),
        s2x,
        s2y,
        s2z,
        Ghost(tb),
        Ghost(s2b),
    );
    let xy = dot3(
        fp_mul_b(r.m00, r.m10, Ghost(rb), Ghost(rb)),
        fp_mul_b(r.m01, r.m11, Ghost(rb), Ghost(rb)),
        fp_mul_b(r.m02, r.m12, Ghost(rb), Ghost(rb)),
        s2x,
        s2y,
        s2z,
        Ghost(tb),
        Ghost(s2b),
    );
    let xz = dot3(
        fp_mul_b(r.m00, r.m20, Ghost(rb), Ghost(rb)),
        fp_mul_b(r.m01, r.m21, Ghost(rb), Ghost(rb)),
        fp_mul_b(r.m02, r.m22, Ghost(rb), Ghost(rb)),
        s2x,
        s2y,
        s2z,
        Ghost(tb),
        Ghost(s2b),
    );
    let yy = dot3(
        fp_mul_b(r.m10, r.m10, Ghost(rb), Ghost(rb)),
        fp_mul_b(r.m11, r.m11, Ghost(rb), Ghost(rb)),
        fp_mul_b(r.m12, r.m12, Ghost(rb), Ghost(rb)),
        s2x,
        s2y,
        s2z,
        Ghost(tb),
        Ghost(s2b),
    );
    let yz = dot3(
        fp_mul_b(r.m10, r.m20, Ghost(rb), Ghost(rb)),
        fp_mul_b(r.m11, r.m21, Ghost(rb), Ghost(rb)),
        fp_mul_b(r.m12, r.m22, Ghost(rb), Ghost(rb)),
        s2x,
        s2y,
        s2z,
        Ghost(tb),
        Ghost(s2b),
    );
    let zz = dot3(
        fp_mul_b(r.m20, r.m20, Ghost(rb), Ghost(rb)),
        fp_mul_b(r.m21, r.m21, Ghost(rb), Ghost(rb)),
        fp_mul_b(r.m22, r.m22, Ghost(rb), Ghost(rb)),
        s2x,
        s2y,
        s2z,
        Ghost(tb),
        Ghost(s2b),
    );
    Sym3 { xx, xy, xz, yy, yz, zz }
}

/// Magnitude bound on the entries of a view-space covariance.
pub const COVV_MAX: i64 = 0x2A30_0000_0000;

/// The view-space covariance B * C * B^T for camera basis B, entry by entry.
pub open spec fn covv_spec(b: Mat3, c: Sym3) -> (int, int, int, int, int, int) {
    let xx = c.xx as int;
    let xy = c.xy as int;
    let xz = c.xz as int;
    let yy = c.yy as int;
    let yz = c.yz as int;
    let zz = c.zz as int;
    let b00 = b.m00 as int;
    let b01 = b.m01 as int;
    let b02 = b.m02 as int;
    let b10 = b.m10 as int;
    let b11 = b.m11 as int;
    let b12 = b.m12 as int;
    let b20 = b.m20 as int;
    let b21 = b.m21 as int;
    let b22 = b.m22 as int;
    let m00 = dot3_spec(b00, b01, b02, xx, xy, xz);
    let m01 = dot3_spec(b00, b01, b02, xy, yy, yz);
    let m02 = dot3_spec(b00, b01, b02, xz, yz, zz);
    let m10 = dot3_spec(b10, b11, b12, xx, xy, xz);
    let m11 = dot3_spec(b10, b11, b12, xy, yy, yz);
    let m12 = dot3_spec(b10, b11, b12, xz, yz, zz);
    let m20 = dot3_spec(b20, b21, b22, xx, xy, xz);
    let m21 = dot3_spec(b20, b21, b22, xy, yy, yz);
    let m22 = dot3_spec(b20, b21, b22, xz, yz, zz);
    (
        dot3_spec(m00, m01, m02, b00, b01, b02),
        dot3_spec(m00, m01, m02, b10, b11, b12),
        dot3_spec(m00, m01, m02, b20, b21, b22),
        dot3_spec(m10, m11, m12, b10, b11, b12),
        dot3_spec(m10, m11, m12, b20, b21, b22),
        dot3_spec(m20, m21, m22, b20, b21, b22),
    )
}

/// The perspective Jacobian's quadratic form for one diagonal entry of the
/// 2D covariance: p^2*sa + 2*p*q*sb + q^2*sc, each product guarded.
pub open spec fn quad_form_spec(p: int, q: int, sa: int, sb: int, sc: int) -> Option<int> {
    let t1 = gmul_spec(p, p);
    let t2 = gmul_spec(p, q);
    let t3 = gmul_spec(q, q);
    if t1 is None || t2 is None || t3 is None {
        None
    } else {
        let u1 = gmul_spec(t1->0, sa);
        let u2 = gmul_spec(t2->0, sb);
        let u3 = gmul_spec(t3->0, sc);
        if u1 is None || u2 is None || u3 is None {
            None
        } else {
            let v = u1->0 + 2 * u2->0 + u3->0;
            if fp_abs(v) > GMAX as int {
                None
            } else {
                Some(v)
            }
        }
    }
}

/// The Jacobian cross term of the 2D covariance:
/// j00*j11*sxy + j00*j12*sxz + j02*j11*syz + j02*j12*szz, guarded.
pub open spec fn cross_form_spec(
    j00: int,
    j02: int,
    j11: int,
    j12: int,
    sxy: int,
    sxz: int,
    syz: int,
    szz: int,
) -> Option<int> {
    let t1 = gmul_spec(j00, j11);
    let t2 = gmul_spec(j00, j12);
    let t3 = gmul_spec(j02, j11);
    let t4 = gmul_spec(j02, j12);
    if t1 is None || t2 is None || t3 is None || t4 is None {
        None
    } else {
        let u1 = gmul_spec(t1->0, sxy);
        let u2 = gmul_spec(t2->0, sxz);
        let u3 = gmul_spec(t3->0, syz);
        let u4 = gmul_spec(t4->0, szz);
        if u1 is None || u2 is None || u3 is None || u4 is None {
            None
        } else {
            let v = u1->0 + u2->0 + u3->0 + u4->0;
            if fp_abs(v) > GMAX as int {
                None
            } else {
                Some(v)
            }
        }
    }
}

/// The regularized 2D screen-space covariance (a, b, c) of a splat, or
/// `None` when a guarded step leaves the fixed-point range.
pub open spec fn cov2_spec(c3: Sym3, view_rot: Mat3, point_view: Vec3, fx: int, fy: int) -> Option<
    (int, int, int),
> {
    let (sxx, sxy, sxz, syy, syz, szz) = covv_spec(view_rot, c3);
    let z = point_view.z as int;
    let j00o = gdiv_spec(fx, z);
    let j11o = gdiv_spec(fy, z);
    if j00o is None || j11o is None {
        None
    } else {
        let txo = gmul_spec(j00o->0, point_view.x as int);
        let tyo = gmul_spec(j11o->0, point_view.y as int);
        if txo is None || tyo is None {
            None
        } else {
            let j02d = gdiv_spec(txo->0, z);
            let j12d = gdiv_spec(tyo->0, z);
            if j02d is None || j12d is None {
                None
            } else {
                let j00 = j00o->0;
                let j11 = j11o->0;
                let j02 = -j02d->0;
                let j12 = -j12d->0;
                let ao = quad_form_spec(j00, j02, sxx, sxz, szz);
                let bo = cross_form_spec(j00, j02, j11, j12, sxy, sxz, syz, szz);
                let co = quad_form_spec(j11, j12, syy, syz, szz);
                if ao is None || bo is None || co is None {
                    None
                } else {
                    Some((ao->0 + COV_REG as int, bo->0, co->0 + COV_REG as int))
                }
            }
        }
    }
}

/// Evaluates one guarded quadratic form of the Jacobian.
fn quad_form(p: i64, q: i64, sa: i64, sb: i64, sc: i64) -> (r: Option<i64>)
    ensures
        r is Some <==> quad_form_spec(p as int, q as int, sa as int, sb as int, sc as int)
            is Some,
        r is Some ==> r->0 == quad_form_spec(
            p as int,
            q as int,
            sa as int,
            sb as int,
            sc as int,
        )->0,
        r is Some ==> fp_abs(r->0 as int) <= GMAX as int,
{
    let t1 = match gmul(p, p) {
        Some(v) => v,
        None => {
            return None;
        },
    };
    let t2 = match gmul(p, q) {
        Some(v) => v,
        None => {
            return None;
        },
    };
    let t3 = match gmul(q, q) {
        Some(v) => v,
        None => {
            return None;
        },
    };
    let u1 = match gmul(t1, sa) {
        Some(v) => v,
        None => {
            return None;
        },
    };
    let u2 = match gmul(t2, sb) {
        Some(v) => v,
        None => {
            return None;
        },
    };
    let u3 = match gmul(t3, sc) {
        Some(v) => v,
        None => {
            return None;
        },
    };
    let v = u1 + 2 * u2 + u3;
    if v > GMAX || v < -GMAX {
        return None;
    }
    Some(v)
}

/// Evaluates the guarded Jacobian cross term.
fn cross_form(
    j00: i64,
    j02: i64,
    j11: i64,
    j12: i64,
    sxy: i64,
    sxz: i64,
    syz: i64,
    szz: i64,
) -> (r: Option<i64>)
    ensures
        r is Some <==> cross_form_spec(
            j00 as int,
            j02 as int,
            j11 as int,
            j12 as int,
            sxy as int,
            sxz as int,
            syz as int,
            szz as int,
        ) is Some,
        r is Some ==> r->0 == cross_form_spec(
            j00 as int,
            j02 as int,
            j11 as int,
            j12 as int,
            sxy as int,
            sxz as int,
            syz as int,
            szz as int,
        )->0,
        r is Some ==> fp_abs(r->0 as int) <= GMAX as int,
{
    let t1 = match gmul(j00, j11) {
        Some(v) => v,
        None => {
            return None;
        },
    };
    let t2 = match gmul(j00, j12) {
        Some(v) => v,
        None => {
            return None;
        },
    };
    let t3 = match gmul(j02, j11) {
        Some(v) => v,
        None => {
            return None;
        },
    };
    let t4 = match gmul(j02, j12) {
        Some(v) => v,
        None => {
            return None;
        },
    };
    let u1 = match gmul(t1, sxy) {
        Some(v) => v,
        None => {
            return None;
        },
    };
    let u2 = match gmul(t2, sxz) {
        Some(v) => v,
        None => {
            return None;
        },
    };
    let u3 = match gmul(t3, syz) {
        Some(v) => v,
        None => {
            return None;
        },
    };
    let u4 = match gmul(t4, szz) {
        Some(v) => v,
        None => {
            return None;
        },
    };
    let v = u1 + u2 + u3 + u4;
    if v > GMAX || v < -GMAX {
        return None;
    }
    Some(v)
}

/// Projects a 3D covariance through the camera basis and the perspective
/// Jacobian at `point_view` to the regularized 2D covariance (a, b, c).
pub fn project_covariance_to_2d(
    cov3: Sym3,
    view_rot: Mat3,
    point_view: Vec3,
    fx: i64,
    fy: i64,
) -> (r: Option<(i64, i64, i64)>)
    requires
        crate::math::sym3_bounded(cov3, COV3_MAX as int),
        mat3_bounded(view_rot, FP as int),
        point_view.z >= 1,
        fp_abs(point_view.x as int) <= VIEW_MAX as int,
        fp_abs(point_view.y as int) <= VIEW_MAX as int,
        fp_abs(point_view.z as int) <= VIEW_MAX as int,
        0 <= fx <= FOCAL_MAX,
        0 <= fy <= FOCAL_MAX,
    ensures
        r is Some <==> cov2_spec(cov3, view_rot, point_view, fx as int, fy as int) is Some,
        r is Some ==> {
            let (a, b, c) = cov2_spec(cov3, view_rot, point_view, fx as int, fy as int)->0;
            let (ra, rb, rc) = r->0;
            ra == a && rb == b && rc == c && fp_abs(ra as int) <= GMAX + COV_REG && fp_abs(
                rb as int,
            ) <= GMAX as int && fp_abs(rc as int) <= GMAX + COV_REG
        },
{
    let ghost fpb = FP as int;
    let ghost c3b = COV3_MAX as int;
    let ghost mb = 3 * (COV3_MAX as int);
    proof {
        assert(fpb * c3b == 0x4B0_0000_0000_0000_0000int / 0x10000) by (nonlinear_arith)
            requires
                fpb == 0x10000int && c3b == 0x4B0_0000_0000int,
        ;
        assert(mb * fpb == 0xE10_0000_0000_0000int) by (nonlinear_arith)
            requires
                fpb == 0x10000int && mb == 0xE10_0000_0000int,
        ;
    }
    let m00 = dot3(view_rot.m00, view_rot.m01, view_rot.m02, cov3.xx, cov3.xy, cov3.xz,
        Ghost(fpb), Ghost(c3b));
    let m01 = dot3(view_rot.m00, view_rot.m01, view_rot.m02, cov3.xy, cov3.yy, cov3.yz,
        Ghost(fpb), Ghost(c3b));
    let m02 = dot3(view_rot.m00, view_rot.m01, view_rot.m02, cov3.xz, cov3.yz, cov3.zz,
        Ghost(fpb), Ghost(c3b));
    let m10 = dot3(view_rot.m10, view_rot.m11, view_rot.m12, cov3.xx, cov3.xy, cov3.xz,
        Ghost(fpb), Ghost(c3b));
    let m11 = dot3(view_rot.m10, view_rot.m11, view_rot.m12, cov3.xy, cov3.yy, cov3.yz,
        Ghost(fpb), Ghost(c3b));
    let m12 = dot3(view_rot.m10, view_rot.m11, view_rot.m12, cov3.xz, cov3.yz, cov3.zz,
        Ghost(fpb), Ghost(c3b));
    let m20 = dot3(view_rot.m20, view_rot.m21, view_rot.m22, cov3.xx, cov3.xy, cov3.xz,
        Ghost(fpb), Ghost(c3b));
    let m21 = dot3(view_rot.m20, view_rot.m21, view_rot.m22, cov3.xy, cov3.yy, cov3.yz,
        Ghost(fpb), Ghost(c3b));
    let m22 = dot3(view_rot.m20, view_rot.m21, view_rot.m22, cov3.xz, cov3.yz, cov3.zz,
        Ghost(fpb), Ghost(c3b));
    let sxx = dot3(m00, m01, m02, view_rot.m00, view_rot.m01, view_rot.m02, Ghost(mb),
        Ghost(fpb));
    let sxy = dot3(m00, m01, m02, view_rot.m10, view_rot.m11, view_rot.m12, Ghost(mb),
        Ghost(fpb));
    let sxz = dot3(m00, m01, m02, view_rot.m20, view_rot.m21, view_rot.m22, Ghost(mb),
        Ghost(fpb));
    let syy = dot3(m10, m11, m12, view_rot.m10, view_rot.m11, view_rot.m12, Ghost(mb),
        Ghost(fpb));
    let syz = dot3(m10, m11, m12, view_rot.m20, view_rot.m21, view_rot.m22, Ghost(mb),
        Ghost(fpb));
    let szz = dot3(m20, m21, m22, view_rot.m20, view_rot.m21, view_rot.m22, Ghost(mb),
        Ghost(fpb));
    let z = point_view.z;
    let j00 = match gdiv(fx, z) {
        Some(v) => v,
        None => {
            return None;
        },
    };
    let j11 = match gdiv(fy, z) {
        Some(v) => v,
        None => {
            return None;
        },
    };
    let tx = match gmul(j00, point_view.x) {
        Some(v) => v,
        None => {
            return None;
        },
    };
    let ty = match gmul(j11, point_view.y) {
        Some(v) => v,
        None => {
            return None;
        },
    };
    let j02 = match gdiv(tx, z) {
        Some(v) => -v,
        None => {
            return None;
        },
    };
    let j12 = match gdiv(ty, z) {
        Some(v) => -v,
        None => {
            return None;
        },
    };
    let a_raw = match quad_form(j00, j02, sxx, sxz, szz) {
        Some(v) => v,
        None => {
            return None;
        },
    };
    let b_raw = match cross_form(j00, j02, j11, j12, sxy, sxz, syz, szz) {
        Some(v) => v,
        None => {
            return None;
        },
    };
    let c_raw = match quad_form(j11, j12, syy, syz, szz) {
        Some(v) => v,
        None => {
            return None;
        },
    };
    Some((a_raw + COV_REG, b_raw, c_raw + COV_REG))
}

/// Screen-space half-extent of a 2D Gaussian: four standard deviations of
/// its largest eigenvalue, where the eigenvalue comes from the symmetric
/// 2x2 eigenvalue formula (a+c+sqrt((a-c)^2+4b^2))/2.
pub open spec fn extent_spec(a: int, b: int, c: int) -> (int, int) {
    let disc = sqrt_floor((a - c) * (a - c) + 4 * (b * b));
    let lam1 = (a + c + disc) / 2;
    let r = 4 * sqrt_floor(lam1 * (FP as int));
    (r, r)
}

/// Computes the screen-space bounding half-extents of a 2D covariance.
pub fn compute_2d_gaussian_extent(cov_a: i64, cov_b: i64, cov_c: i64) -> (r: (i64, i64))
    requires
        0 < cov_a <= GMAX + COV_REG,
        fp_abs(cov_b as int) <= GMAX as int,
        0 < cov_c <= GMAX + COV_REG,
    ensures
        (r.0 as int, r.1 as int) == extent_spec(cov_a as int, cov_b as int, cov_c as int),
        0 <= r.0 <= RADIUS_MAX,
        r.0 == r.1,
{
    let d = cov_a as i128 - cov_c as i128;
    let b128 = cov_b as i128;
    proof {
        assert(0 <= d * d <= 0x1000_0000_0000_0000_0000_0000int) by (nonlinear_arith)
            requires
                fp_abs(d as int) <= 0x4000_0000_0000int,
        ;
        assert(0 <= b128 * b128 <= 0x1000_0000_0000_0000_0000_0000int) by (nonlinear_arith)
            requires
                fp_abs(b128 as int) <= 0x4000_0000_0000int,
        ;
    }
    let d128 = d * d + 4 * (b128 * b128);
    let disc = isqrt_u128(d128 as u128);
    proof {
        lemma_sqrt_floor_bracket(d128 as int);
        assert(disc <= 0xA000_0000_0000u64) by (nonlinear_arith)
            requires
                (disc as int) * (disc as int) <= 0x5000_0000_0000_0000_0000_0000int,
        ;
    }
    let tr_disc = (cov_a as u64) + (cov_c as u64) + disc;
    let lam1 = tr_disc / 2;
    proof {
        assert(tr_disc <= 0xE000_0000_0084u64);
        crate::fp::lemma_div_bound(tr_disc as int, 0xE000_0000_0084int, 2);
        assert(lam1 <= 0x7000_0000_0042u64);
    }
    let x = lam1 * 65536;
    let rt = isqrt_u64(x);
    proof {
        assert(rt <= 0xB504_F334u64) by (nonlinear_arith)
            requires
                (rt as int) * (rt as int) <= 0x8000_0000_0000_0000int,
        ;
    }
    let radius = 4 * (rt as i64);
    (radius, radius)
}

/// The inverse of the 2D covariance, or `None` when it is singular or an
/// inverse entry leaves the guarded range.  The discard threshold on the
/// determinant (about 1e-8) lies below one fixed-point unit, so at this
/// resolution it discards exactly a zero determinant; the range guard is
/// the fixed-point machine limit.
pub open spec fn invert_spec(a: int, b: int, c: int) -> Option<(int, int, int)> {
    let det = fp_mul_spec(a, c) - fp_mul_spec(b, b);
    if det == 0 {
        None
    } else {
        let ia = fp_div_spec(c, det);
        let ib = -fp_div_spec(b, det);
        let ic = fp_div_spec(a, det);
        if fp_abs(ia) > INV_COV_MAX as int || fp_abs(ib) > INV_COV_MAX as int || fp_abs(ic)
            > INV_COV_MAX as int {
            None
        } else {
            Some((ia, ib, ic))
        }
    }
}

/// Inverts the 2D covariance.  Splats whose determinant vanishes at
/// fixed-point resolution, or whose inverse leaves the guarded range, are
/// discarded by the projector.
#[verifier::rlimit(30)]
pub fn invert_2x2_covariance(cov_a: i64, cov_b: i64, cov_c: i64) -> (r: Option<(i64, i64, i64)>)
    requires
        0 < cov_a <= GMAX + COV_REG,
        fp_abs(cov_b as int) <= GMAX as int,
        0 < cov_c <= GMAX + COV_REG,
    ensures
        r is Some <==> invert_spec(cov_a as int, cov_b as int, cov_c as int) is Some,
        r is Some ==> {
            let (ia, ib, ic) = invert_spec(cov_a as int, cov_b as int, cov_c as int)->0;
            let (ra, rb, rc) = r->0;
            ra == ia && rb == ib && rc == ic && fp_abs(ra as int) <= INV_COV_MAX as int && fp_abs(
                rb as int,
            ) <= INV_COV_MAX as int && fp_abs(rc as int) <= INV_COV_MAX as int
        },
        r is Some ==> fp_mul_spec(cov_a as int, cov_c as int) - fp_mul_spec(
            cov_b as int,
            cov_b as int,
        ) != 0,
{
    let au = cov_a as u128;
    let cu = cov_c as u128;
    let bm = if cov_b < 0 {
        (-(cov_b as i128)) as u128
    } else {
        cov_b as u128
    };
    proof {
        assert(au * cu <= 0x1000_0000_0000_0000_0000_0000u128 && bm * bm
            <= 0x1000_0000_0000_0000_0000_0000u128) by (nonlinear_arith)
            requires
                au <= 0x2000_0000_0042u128,
                cu <= 0x2000_0000_0042u128,
                bm <= 0x2000_0000_0000u128,
        ;
    }
    let ac = au * cu / (FP as u128);
    let b2 = bm * bm / (FP as u128);
    proof {
        assert(ac == fp_mul_spec(cov_a as int, cov_c as int));
        assert(b2 == fp_mul_spec(cov_b as int, cov_b as int));
    }
    if ac == b2 {
        return None;
    }
    let det_neg = b2 > ac;
    let det_mag = if det_neg {
        b2 - ac
    } else {
        ac - b2
    };
    let ghost sdet = fp_mul_spec(cov_a as int, cov_c as int) - fp_mul_spec(
        cov_b as int,
        cov_b as int,
    );
    let iau = cu * 65536 / det_mag;
    let ibu = bm * 65536 / det_mag;
    let icu = au * 65536 / det_mag;
    proof {
        assert(det_mag == fp_abs(sdet) && det_neg == (sdet < 0));
        assert(iau == fp_abs(fp_div_spec(cov_c as int, sdet)));
        assert(ibu == fp_abs(fp_div_spec(cov_b as int, sdet)));
        assert(icu == fp_abs(fp_div_spec(cov_a as int, sdet)));
    }
    if iau > INV_COV_MAX as u128 || ibu > INV_COV_MAX as u128 || icu > INV_COV_MAX as u128 {
        return None;
    }
    let ia = if det_neg {
        -(iau as i64)
    } else {
        iau as i64
    };
    let ic = if det_neg {
        -(icu as i64)
    } else {
        icu as i64
    };
    let ib = if (cov_b < 0) == det_neg {
        -(ibu as i64)
    } else {
        ibu as i64
    };
    proof {
        if sdet < 0 {
            assert(crate::fp::fp_sign(cov_c as int, sdet) == -1);
            assert(crate::fp::fp_sign(cov_a as int, sdet) == -1);
            assert(fp_div_spec(cov_c as int, sdet) == -(iau as int));
            assert(fp_div_spec(cov_a as int, sdet) == -(icu as int));
        } else {
            assert(crate::fp::fp_sign(cov_c as int, sdet) == 1);
            assert(crate::fp::fp_sign(cov_a as int, sdet) == 1);
            assert(fp_div_spec(cov_c as int, sdet) == iau as int);
            assert(fp_div_spec(cov_a as int, sdet) == icu as int);
        }
        assert(ia as int == fp_div_spec(cov_c as int, sdet));
        assert(ic as int == fp_div_spec(cov_a as int, sdet));
        if (cov_b < 0) == (sdet < 0) {
            assert(crate::fp::fp_sign(cov_b as int, sdet) == 1);
            assert(fp_div_spec(cov_b as int, sdet) == ibu as int);
        } else {
            assert(crate::fp::fp_sign(cov_b as int, sdet) == -1);
            assert(fp_div_spec(cov_b as int, sdet) == -(ibu as int));
        }
        assert(ib as int == -fp_div_spec(cov_b as int, sdet));
    }
    Some((ia, ib, ic))
}

} // verus!
