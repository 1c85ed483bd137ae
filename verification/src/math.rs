//! Fixed-point vectors, matrices and quaternions for the splat pipeline.

use vstd::prelude::*;

use crate::fp::{fp_mul_b, fp_mul_spec, fp_abs, FP, FP_ABS_MAX};

verus! {

/// A 3-vector in 16.16 fixed point.
#[derive(Clone, Copy, PartialEq, Eq, Structural, Debug)]
pub struct Vec3 {
    pub x: i64,
    pub y: i64,
    pub z: i64,
}

/// A 3x3 matrix in 16.16 fixed point, row major.
#[derive(Clone, Copy, PartialEq, Eq, Structural, Debug)]
pub struct Mat3 {
    pub m00: i64,
    pub m01: i64,
    pub m02: i64,
    pub m10: i64,
    pub m11: i64,
    pub m12: i64,
    pub m20: i64,
    pub m21: i64,
    pub m22: i64,
}

/// A symmetric 3x3 matrix in 16.16 fixed point, upper triangle.
#[derive(Clone, Copy, PartialEq, Eq, Structural, Debug)]
pub struct Sym3 {
    pub xx: i64,
    pub xy: i64,
    pub xz: i64,
    pub yy: i64,
    pub yz: i64,
    pub zz: i64,
}

/// A rotation quaternion (w, x, y, z) in 16.16 fixed point.
#[derive(Clone, Copy, PartialEq, Eq, Structural, Debug)]
pub struct Quat {
    pub w: i64,
    pub x: i64,
    pub y: i64,
    pub z: i64,
}

/// All components at most one in magnitude, as a normalized quaternion has.
pub open spec fn quat_wf(q: Quat) -> bool {
    &&& fp_abs(q.w as int) <= FP as int
    &&& fp_abs(q.x as int) <= FP as int
    &&& fp_abs(q.y as int) <= FP as int
    &&& fp_abs(q.z as int) <= FP as int
}

/// All entries at most `bound` in magnitude.
pub open spec fn mat3_bounded(m: Mat3, bound: int) -> bool {
    &&& fp_abs(m.m00 as int) <= bound
    &&& fp_abs(m.m01 as int) <= bound
    &&& fp_abs(m.m02 as int) <= bound
    &&& fp_abs(m.m10 as int) <= bound
    &&& fp_abs(m.m11 as int) <= bound
    &&& fp_abs(m.m12 as int) <= bound
    &&& fp_abs(m.m20 as int) <= bound
    &&& fp_abs(m.m21 as int) <= bound
    &&& fp_abs(m.m22 as int) <= bound
}

/// All entries at most `bound` in magnitude.
pub open spec fn sym3_bounded(s: Sym3, bound: int) -> bool {
    &&& fp_abs(s.xx as int) <= bound
    &&& fp_abs(s.xy as int) <= bound
    &&& fp_abs(s.xz as int) <= bound
    &&& fp_abs(s.yy as int) <= bound
    &&& fp_abs(s.yz as int) <= bound
    &&& fp_abs(s.zz as int) <= bound
}

/// Fixed-point dot product of two 3-vectors given componentwise.
pub open spec fn dot3_spec(a0: int, a1: int, a2: int, b0: int, b1: int, b2: int) -> int {
    fp_mul_spec(a0, b0) + fp_mul_spec(a1, b1) + fp_mul_spec(a2, b2)
}

/// Fixed-point dot product with ghost operand bounds.
pub fn dot3(
    a0: i64,
    a1: i64,
    a2: i64,
    b0: i64,
    b1: i64,
    b2: i64,
    Ghost(ba): Ghost<int>,
    Ghost(bb): Ghost<int>,
) -> (r: i64)
    requires
        fp_abs(a0 as int) <= ba,
        fp_abs(a1 as int) <= ba,
        fp_abs(a2 as int) <= ba,
        fp_abs(b0 as int) <= bb,
        fp_abs(b1 as int) <= bb,
        fp_abs(b2 as int) <= bb,
        0 <= ba <= FP_ABS_MAX as int,
        0 <= bb <= FP_ABS_MAX as int,
        3 * (ba * bb) <= (FP_ABS_MAX as int) * (FP as int),
    ensures
        r == dot3_spec(a0 as int, a1 as int, a2 as int, b0 as int, b1 as int, b2 as int),
        fp_abs(r as int) <= 3 * (ba * bb / (FP as int)),
{
    let t0 = fp_mul_b(a0, b0, Ghost(ba), Ghost(bb));
    let t1 = fp_mul_b(a1, b1, Ghost(ba), Ghost(bb));
    let t2 = fp_mul_b(a2, b2, Ghost(ba), Ghost(bb));
    t0 + t1 + t2
}

/// One entry of the rotation matrix of a unit quaternion:
/// the diagonal entries are 1 - 2(b^2 + c^2), the rest 2(ab +/- cd).
pub open spec fn rot_diag_spec(b: int, c: int) -> int {
    FP as int - 2 * fp_mul_spec(b, b) - 2 * fp_mul_spec(c, c)
}

pub open spec fn rot_off_spec(a: int, b: int, c: int, d: int, plus: bool) -> int {
    if plus {
        2 * fp_mul_spec(a, b) + 2 * fp_mul_spec(c, d)
    } else {
        2 * fp_mul_spec(a, b) - 2 * fp_mul_spec(c, d)
    }
}

/// The rotation matrix of `q`, entry by entry.
pub open spec fn quat_rot_spec(q: Quat) -> (int, int, int, int, int, int, int, int, int) {
    let w = q.w as int;
    let x = q.x as int;
    let y = q.y as int;
    let z = q.z as int;
    (
        rot_diag_spec(y, z),
        rot_off_spec(x, y, w, z, false),
        rot_off_spec(x, z, w, y, true),
        rot_off_spec(x, y, w, z, true),
        rot_diag_spec(x, z),
        rot_off_spec(y, z, w, x, false),
        rot_off_spec(x, z, w, y, false),
        rot_off_spec(y, z, w, x, true),
        rot_diag_spec(x, y),
    )
}

/// Builds the rotation matrix of a (near-)unit quaternion.  Every entry of
/// the result is at most five in magnitude.
pub fn quat_to_rotation_matrix(q: Quat) -> (r: Mat3)
    requires
        quat_wf(q),
    ensures
        (
            r.m00 as int,
            r.m01 as int,
            r.m02 as int,
            r.m10 as int,
            r.m11 as int,
            r.m12 as int,
            r.m20 as int,
            r.m21 as int,
            r.m22 as int,
        ) == quat_rot_spec(q),
        mat3_bounded(r, 5 * FP as int),
{
    let ghost fpb = FP as int;
    let xx = fp_mul_b(q.x, q.x, Ghost(fpb), Ghost(fpb));
    let yy = fp_mul_b(q.y, q.y, Ghost(fpb), Ghost(fpb));
    let zz = fp_mul_b(q.z, q.z, Ghost(fpb), Ghost(fpb));
    let xy = fp_mul_b(q.x, q.y, Ghost(fpb), Ghost(fpb));
    let xz = fp_mul_b(q.x, q.z, Ghost(fpb), Ghost(fpb));
    let yz = fp_mul_b(q.y, q.z, Ghost(fpb), Ghost(fpb));
    let wx = fp_mul_b(q.w, q.x, Ghost(fpb), Ghost(fpb));
    let wy = fp_mul_b(q.w, q.y, Ghost(fpb), Ghost(fpb));
    let wz = fp_mul_b(q.w, q.z, Ghost(fpb), Ghost(fpb));
    Mat3 {
        m00: FP - 2 * yy - 2 * zz,
        m01: 2 * xy - 2 * wz,
        m02: 2 * xz + 2 * wy,
        m10: 2 * xy + 2 * wz,
        m11: FP - 2 * xx - 2 * zz,
        m12: 2 * yz - 2 * wx,
        m20: 2 * xz - 2 * wy,
        m21: 2 * yz + 2 * wx,
        m22: FP - 2 * xx - 2 * yy,
    }
}

} // verus!
