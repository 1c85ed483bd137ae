//! The per-frame camera record the pipeline consumes: a position, a
//! right-handed orthonormal basis, the vertical field of view as the tangent
//! of its half angle, and the near and far planes.  The interactive
//! controller that produces these values lives outside the crate.

use vstd::prelude::*;

use crate::fp::{fp_abs, fp_div, fp_div_spec, fp_mul_b, fp_mul_spec, FP};
use crate::math::{dot3, dot3_spec, mat3_bounded, Mat3, Vec3};
use crate::splat::{FAR_LIMIT, FOCAL_MAX, POS_MAX, VIEW_MAX};

verus! {

/// Smallest accepted tangent of the half field of view (about 0.01).
pub const TAN_MIN: i64 = 655;

/// Largest accepted tangent of the half field of view (64).
pub const TAN_MAX: i64 = 0x40_0000;

/// Smallest accepted near plane (about 0.01).
pub const NEAR_MIN: i64 = 655;

/// Largest accepted width-to-height ratio (64).
pub const RATIO_MAX: i64 = 0x40_0000;

/// Largest screen dimension in pixels.
pub const DIM_MAX: usize = 16384;

/// A camera pose and frustum in 16.16 fixed point.
#[derive(Clone, Copy, PartialEq, Eq, Structural, Debug)]
pub struct Camera {
    pub position: Vec3,
    pub right: Vec3,
    pub up: Vec3,
    pub forward: Vec3,
    pub tan_half_fov: i64,
    pub near: i64,
    pub far: i64,
}

/// The ranges a usable camera satisfies: bounded position, unit-bounded
/// basis vectors, tangent and planes within the documented limits.
pub open spec fn camera_wf(c: Camera) -> bool {
    &&& fp_abs(c.position.x as int) <= POS_MAX as int
    &&& fp_abs(c.position.y as int) <= POS_MAX as int
    &&& fp_abs(c.position.z as int) <= POS_MAX as int
    &&& fp_abs(c.right.x as int) <= FP as int
    &&& fp_abs(c.right.y as int) <= FP as int
    &&& fp_abs(c.right.z as int) <= FP as int
    &&& fp_abs(c.up.x as int) <= FP as int
    &&& fp_abs(c.up.y as int) <= FP as int
    &&& fp_abs(c.up.z as int) <= FP as int
    &&& fp_abs(c.forward.x as int) <= FP as int
    &&& fp_abs(c.forward.y as int) <= FP as int
    &&& fp_abs(c.forward.z as int) <= FP as int
    &&& TAN_MIN <= c.tan_half_fov <= TAN_MAX
    &&& NEAR_MIN <= c.near < c.far <= FAR_LIMIT
}

/// The view-space coordinates of a world point: the basis rows dotted with
/// the offset from the camera position.
pub open spec fn world_to_view_spec(c: Camera, p: Vec3) -> (int, int, int) {
    let rx = p.x as int - c.position.x as int;
    let ry = p.y as int - c.position.y as int;
    let rz = p.z as int - c.position.z as int;
    (
        dot3_spec(rx, ry, rz, c.right.x as int, c.right.y as int, c.right.z as int),
        dot3_spec(rx, ry, rz, c.up.x as int, c.up.y as int, c.up.z as int),
        dot3_spec(rx, ry, rz, c.forward.x as int, c.forward.y as int, c.forward.z as int),
    )
}

impl Camera {
    /// Transforms a world point into view space.
    pub fn world_to_view(&self, point: Vec3) -> (v: Vec3)
        requires
            camera_wf(*self),
            fp_abs(point.x as int) <= POS_MAX as int,
            fp_abs(point.y as int) <= POS_MAX as int,
            fp_abs(point.z as int) <= POS_MAX as int,
        ensures
            (v.x as int, v.y as int, v.z as int) == world_to_view_spec(*self, point),
            fp_abs(v.x as int) <= VIEW_MAX as int,
            fp_abs(v.y as int) <= VIEW_MAX as int,
            fp_abs(v.z as int) <= VIEW_MAX as int,
    {
        let ghost pb = 2 * POS_MAX as int;
        let rx = point.x - self.position.x;
        let ry = point.y - self.position.y;
        let rz = point.z - self.position.z;
        let vx = dot3(rx, ry, rz, self.right.x, self.right.y, self.right.z, Ghost(pb),
            Ghost(FP as int));
        let vy = dot3(rx, ry, rz, self.up.x, self.up.y, self.up.z, Ghost(pb), Ghost(FP as int));
        let vz = dot3(rx, ry, rz, self.forward.x, self.forward.y, self.forward.z, Ghost(pb),
            Ghost(FP as int));
        Vec3 { x: vx, y: vy, z: vz }
    }

    /// The view rotation matrix: basis vectors as rows (right, up, forward).
    pub fn view_rotation(&self) -> (m: Mat3)
        requires
            camera_wf(*self),
        ensures
            m.m00 == self.right.x && m.m01 == self.right.y && m.m02 == self.right.z,
            m.m10 == self.up.x && m.m11 == self.up.y && m.m12 == self.up.z,
            m.m20 == self.forward.x && m.m21 == self.forward.y && m.m22 == self.forward.z,
            mat3_bounded(m, FP as int),
    {
        Mat3 {
            m00: self.right.x,
            m01: self.right.y,
            m02: self.right.z,
            m10: self.up.x,
            m11: self.up.y,
            m12: self.up.z,
            m20: self.forward.x,
            m21: self.forward.y,
            m22: self.forward.z,
        }
    }
}

/// The focal lengths for a given screen size: fy = h / (2 tan(fov/2)) and
/// fx = fy * (w / h), each saturated at the focal bound.
pub open spec fn focal_lengths_spec(c: Camera, width: int, height: int) -> (int, int) {
    let h_fp = height * (FP as int);
    let w_fp = width * (FP as int);
    let fy0 = fp_div_spec(h_fp, 2 * c.tan_half_fov as int);
    let fy = if fy0 > FOCAL_MAX as int {
        FOCAL_MAX as int
    } else {
        fy0
    };
    let ratio0 = fp_div_spec(w_fp, h_fp);
    let ratio = if ratio0 > RATIO_MAX as int {
        RATIO_MAX as int
    } else {
        ratio0
    };
    let fx0 = fp_mul_spec(fy, ratio);
    let fx = if fx0 > FOCAL_MAX as int {
        FOCAL_MAX as int
    } else {
        fx0
    };
    (fx, fy)
}

impl Camera {
    /// Computes the saturated focal lengths (fx, fy) for a screen size.
    pub fn focal_lengths(&self, width: usize, height: usize) -> (r: (i64, i64))
        requires
            camera_wf(*self),
            1 <= width <= DIM_MAX,
            1 <= height <= DIM_MAX,
        ensures
            (r.0 as int, r.1 as int) == focal_lengths_spec(*self, width as int, height as int),
            0 <= r.0 <= FOCAL_MAX,
            0 <= r.1 <= FOCAL_MAX,
    {
        let h_fp = (height as i64) * FP;
        let w_fp = (width as i64) * FP;
        proof {
            crate::fp::lemma_div_bound(
                (h_fp as int) * (FP as int),
                0x4000_0000_0000_0000int,
                2 * self.tan_half_fov as int,
            );
            crate::fp::lemma_div_bound(
                (w_fp as int) * (FP as int),
                0x4000_0000_0000_0000int,
                h_fp as int,
            );
        }
        let fy0 = fp_div(h_fp, 2 * self.tan_half_fov);
        let fy = if fy0 > FOCAL_MAX {
            FOCAL_MAX
        } else {
            fy0
        };
        let ratio0 = fp_div(w_fp, h_fp);
        let ratio = if ratio0 > RATIO_MAX {
            RATIO_MAX
        } else {
            ratio0
        };
        let fx0 = fp_mul_b(fy, ratio, Ghost(FOCAL_MAX as int), Ghost(RATIO_MAX as int));
        let fx = if fx0 > FOCAL_MAX {
            FOCAL_MAX
        } else {
            fx0
        };
        (fx, fy)
    }
}

} // verus!
