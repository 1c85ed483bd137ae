//! Terminal color mapping: reducing 24-bit color to the 256-color palette.

use vstd::prelude::*;

verus! {

/// Weighted perceptual distance squared between two colors (green weighted
/// four-fold, red two-fold, blue single).
pub open spec fn perceptual_dist_spec(
    r1: int,
    g1: int,
    b1: int,
    r2: int,
    g2: int,
    b2: int,
) -> int {
    2 * ((r1 - r2) * (r1 - r2)) + 4 * ((g1 - g2) * (g1 - g2)) + (b1 - b2) * (b1 - b2)
}

/// Weighted perceptual distance squared.
pub fn perceptual_dist_sq(r1: u8, g1: u8, b1: u8, r2: u8, g2: u8, b2: u8) -> (d: u32)
    ensures
        d == perceptual_dist_spec(r1 as int, g1 as int, b1 as int, r2 as int, g2 as int, b2 as int),
        d <= 455175,
{
    proof {
        assert(forall|a: int, b: int|
            0 <= a < 256 && 0 <= b < 256 ==> 0 <= #[trigger] ((a - b) * (a - b)) <= 65025)
            by (nonlinear_arith);
    }
    let dr = r1 as i64 - r2 as i64;
    let dg = g1 as i64 - g2 as i64;
    let db = b1 as i64 - b2 as i64;
    (2 * (dr * dr) + 4 * (dg * dg) + db * db) as u32
}

/// The palette index of a color-cube entry.
pub open spec fn cube_index_spec(ri: int, gi: int, bi: int) -> int {
    16 + 36 * ri + 6 * gi + bi
}

/// The channel value a cube coordinate stands for.
pub open spec fn cube_level_spec(i: int) -> int {
    i * 51
}

/// Rounded cube coordinate of a channel: round(v / 51).
pub open spec fn cube_coord_spec(v: int) -> int {
    (10 * v + 255) / 510
}

/// The best (index, distance) among the cube candidates within one step of
/// the rounded coordinates, scanning candidates `0 .. k` in order.
pub open spec fn best_cube_spec(r: int, g: int, b: int, k: int) -> (int, int)
    decreases k,
{
    let ri0 = cube_coord_spec(r);
    let gi0 = cube_coord_spec(g);
    let bi0 = cube_coord_spec(b);
    if k <= 0 {
        (
            cube_index_spec(ri0, gi0, bi0),
            perceptual_dist_spec(
                r,
                g,
                b,
                cube_level_spec(ri0),
                cube_level_spec(gi0),
                cube_level_spec(bi0),
            ),
        )
    } else {
        let (prev_idx, prev_dist) = best_cube_spec(r, g, b, k - 1);
        let c = k - 1;
        let ri = ri0 + c / 9 - 1;
        let gi = gi0 + (c / 3) % 3 - 1;
        let bi = bi0 + c % 3 - 1;
        if 0 <= ri <= 5 && 0 <= gi <= 5 && 0 <= bi <= 5 {
            let d = perceptual_dist_spec(
                r,
                g,
                b,
                cube_level_spec(ri),
                cube_level_spec(gi),
                cube_level_spec(bi),
            );
            if d < prev_dist {
                (cube_index_spec(ri, gi, bi), d)
            } else {
                (prev_idx, prev_dist)
            }
        } else {
            (prev_idx, prev_dist)
        }
    }
}

/// The 256-color palette index chosen for a 24-bit color: the perceptually
/// closest near-cube entry, or a grayscale-ramp entry for near-gray colors
/// that the ramp matches at least as well.
pub open spec fn rgb_to_ansi256_spec(r: int, g: int, b: int) -> int {
    let (cube_idx, cube_dist) = best_cube_spec(r, g, b, 27);
    let max_ch = if r >= g && r >= b {
        r
    } else if g >= b {
        g
    } else {
        b
    };
    let min_ch = if r <= g && r <= b {
        r
    } else if g <= b {
        g
    } else {
        b
    };
    if max_ch - min_ch < 12 {
        let avg = (r + g + b) / 3;
        if avg < 4 {
            16
        } else if avg > 246 {
            231
        } else {
            let gi = if avg < 8 {
                0int
            } else if (avg - 8 + 5) / 10 > 23 {
                23int
            } else {
                (avg - 8 + 5) / 10
            };
            let level = 8 + 10 * gi;
            let gray_dist = perceptual_dist_spec(r, g, b, level, level, level);
            if gray_dist <= cube_dist {
                232 + gi
            } else {
                cube_idx
            }
        }
    } else {
        cube_idx
    }
}

/// Maps a 24-bit color to the closest entry the 256-color palette offers:
/// the best color-cube entry near the rounded coordinates, or a grayscale
/// ramp entry when the channels are close and the ramp matches better.
pub fn rgb_to_ansi256(r: u8, g: u8, b: u8) -> (idx: u8)
    ensures
        idx == rgb_to_ansi256_spec(r as int, g as int, b as int),
        16 <= idx,
{
    let ri0 = (10 * (r as u32) + 255) / 510;
    let gi0 = (10 * (g as u32) + 255) / 510;
    let bi0 = (10 * (b as u32) + 255) / 510;
    let mut best_idx: u32 = 16 + 36 * ri0 + 6 * gi0 + bi0;
    let mut best_dist: u32 = perceptual_dist_sq(
        r,
        g,
        b,
        (ri0 * 51) as u8,
        (gi0 * 51) as u8,
        (bi0 * 51) as u8,
    );
    let mut k: u32 = 0;
    while k < 27
        invariant
            k <= 27,
            ri0 == cube_coord_spec(r as int),
            gi0 == cube_coord_spec(g as int),
            bi0 == cube_coord_spec(b as int),
            ri0 <= 5 && gi0 <= 5 && bi0 <= 5,
            (best_idx as int, best_dist as int) == best_cube_spec(
                r as int,
                g as int,
                b as int,
                k as int,
            ),
            16 <= best_idx <= 231,
            best_dist <= 0x7_0000_0000u64,
        decreases 27 - k,
    {
        let ri = ri0 as i32 + (k as i32) / 9 - 1;
        let gi = gi0 as i32 + ((k as i32) / 3) % 3 - 1;
        let bi = bi0 as i32 + (k as i32) % 3 - 1;
        if 0 <= ri && ri <= 5 && 0 <= gi && gi <= 5 && 0 <= bi && bi <= 5 {
            let d = perceptual_dist_sq(
                r,
                g,
                b,
                (ri * 51) as u8,
                (gi * 51) as u8,
                (bi * 51) as u8,
            );
            if d < best_dist {
                best_dist = d;
                best_idx = (16 + 36 * ri + 6 * gi + bi) as u32;
            }
        }
        k = k + 1;
    }
    let max_ch = if r >= g && r >= b {
        r
    } else if g >= b {
        g
    } else {
        b
    };
    let min_ch = if r <= g && r <= b {
        r
    } else if g <= b {
        g
    } else {
        b
    };
    if max_ch - min_ch < 12 {
        let avg = ((r as u32) + (g as u32) + (b as u32)) / 3;
        if avg < 4 {
            return 16;
        }
        if avg > 246 {
            return 231;
        }
        let gi = if avg < 8 {
            0
        } else if (avg - 8 + 5) / 10 > 23 {
            23
        } else {
            (avg - 8 + 5) / 10
        };
        let level = (8 + 10 * gi) as u8;
        let gray_dist = perceptual_dist_sq(r, g, b, level, level, level);
        if gray_dist <= best_dist {
            return (232 + gi) as u8;
        }
        return best_idx as u8;
    }
    best_idx as u8
}

} // verus!
