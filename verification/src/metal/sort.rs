//! Dispatch arithmetic shared by the kernel stages.

use vstd::prelude::*;

verus! {

/// Ceiling division of kernel work over threadgroup width.
pub fn div_ceil_u32(value: u32, divisor: u32) -> (r: u32)
    requires
        divisor >= 1,
    ensures
        r == ((value as int) + (divisor as int) - 1) / (divisor as int),
        r * divisor >= value,
{
    if value == 0 {
        proof {
            assert(((divisor as int) - 1) / (divisor as int) == 0) by (nonlinear_arith)
                requires
                    divisor >= 1u32,
            ;
        }
        return 0;
    }
    let r = 1 + (value - 1) / divisor;
    proof {
        let v = value as int;
        let d = divisor as int;
        assert(1 + (v - 1) / d == (v + d - 1) / d) by (nonlinear_arith)
            requires
                d >= 1,
                v >= 1,
        ;
        assert(((v + d - 1) / d) * d >= v) by (nonlinear_arith)
            requires
                d >= 1,
                v >= 1,
        ;
    }
    r
}

} // verus!
