//! Packed 32-bit sort keys for the tile back-end.
//!
//! A key holds, from the high bits down: 10 bits of tile id, 18 bits of
//! quantized depth, and 4 low bits of the splat's original index as a
//! deterministic tie-breaker.  Sorting keys as plain integers therefore
//! groups entries by tile, orders them by depth within a tile, and breaks
//! depth ties the same way on every frame.

use vstd::prelude::*;

use crate::fp::FP_ABS_MAX;

verus! {

/// Largest tile id the 10-bit field can hold.
pub const MAX_TILE_ID: u32 = 1023;

/// Number of quantized depth values (2^18).
pub const DEPTH_STEPS: u32 = 0x40000;

/// Tile id carried in a packed key.
pub open spec fn key_tile(k: u32) -> u32 {
    k >> 22
}

/// Quantized depth carried in a packed key.
pub open spec fn key_depth(k: u32) -> u32 {
    (k >> 4) & 0x3ffff
}

/// Tie-breaker carried in a packed key.
pub open spec fn key_tie(k: u32) -> u32 {
    k & 0xf
}

/// Arithmetic value of a packed key.
pub open spec fn pack_key_spec(tile: u32, depth_q: u32, tie: u32) -> int {
    tile * 0x400000 + depth_q * 16 + tie
}

/// Packs (tile, quantized depth, tie-breaker) into one sort key.
pub fn pack_key(tile: u32, depth_q: u32, tie: u32) -> (k: u32)
    requires
        tile <= MAX_TILE_ID,
        depth_q < DEPTH_STEPS,
        tie < 16,
    ensures
        k == pack_key_spec(tile, depth_q, tie),
        key_tile(k) == tile,
        key_depth(k) == depth_q,
        key_tie(k) == tie,
{
    proof {
        assert((tile << 22) | (depth_q << 4) | tie
            == tile * 0x400000 + depth_q * 16 + tie) by (bit_vector)
            requires
                tile <= 1023u32,
                depth_q < 0x40000u32,
                tie < 16u32,
        ;
        let k = (tile << 22) | (depth_q << 4) | tie;
        assert(k >> 22 == tile && (k >> 4) & 0x3ffff == depth_q && k & 0xf == tie) by (bit_vector)
            requires
                k == (tile << 22) | (depth_q << 4) | tie,
                tile <= 1023u32,
                depth_q < 0x40000u32,
                tie < 16u32,
        ;
    }
    (tile << 22) | (depth_q << 4) | tie
}

/// Key order is lexicographic in (tile, depth, tie): whole keys compare the
/// way their fields compare.
pub proof fn lemma_key_order(k1: u32, k2: u32)
    ensures
        k1 <= k2 ==> key_tile(k1) <= key_tile(k2),
        key_tile(k1) == key_tile(k2) && k1 <= k2 ==> key_depth(k1) <= key_depth(k2),
        key_tile(k1) < key_tile(k2) ==> k1 < k2,
{
    assert(k1 <= k2 ==> (k1 >> 22) <= (k2 >> 22)) by (bit_vector);
    assert((k1 >> 22) == (k2 >> 22) && k1 <= k2 ==> ((k1 >> 4) & 0x3ffff) <= ((k2 >> 4) & 0x3ffff))
        by (bit_vector);
    assert((k1 >> 22) < (k2 >> 22) ==> k1 < k2) by (bit_vector);
}

/// Entries sorted by whole keys are grouped by tile, and ordered by
/// quantized depth within each tile.
pub proof fn lemma_sorted_keys_grouped(s: Seq<crate::radix::KeyValue>)
    requires
        crate::radix::sorted_by_key(s),
    ensures
        forall|i: int, j: int|
            0 <= i <= j < s.len() ==> key_tile(#[trigger] s[i].key) <= key_tile(
                #[trigger] s[j].key,
            ),
        forall|i: int, j: int|
            0 <= i <= j < s.len() && key_tile(s[i].key) == key_tile(s[j].key) ==> key_depth(
                #[trigger] s[i].key,
            ) <= key_depth(#[trigger] s[j].key),
{
    assert forall|i: int, j: int|
        0 <= i <= j < s.len() implies key_tile(#[trigger] s[i].key) <= key_tile(
        #[trigger] s[j].key,
    ) && (key_tile(s[i].key) == key_tile(s[j].key) ==> key_depth(s[i].key) <= key_depth(
        s[j].key,
    )) by {
        lemma_key_order(s[i].key, s[j].key);
    }
}

/// Quantized depth: the position of `depth` between the near and far planes,
/// mapped linearly onto the 18-bit range and clamped at both ends.
pub open spec fn quantize_depth_spec(depth: int, near: int, far: int) -> int {
    if depth <= near {
        0
    } else if depth >= far {
        (DEPTH_STEPS - 1) as int
    } else {
        (depth - near) * ((DEPTH_STEPS - 1) as int) / (far - near)
    }
}

/// Maps a fixed-point view depth onto the 18-bit key field.
pub fn quantize_depth(depth: i64, near: i64, far: i64) -> (q: u32)
    requires
        0 < near < far <= FP_ABS_MAX,
        -FP_ABS_MAX <= depth <= FP_ABS_MAX,
    ensures
        q == quantize_depth_spec(depth as int, near as int, far as int),
        q < DEPTH_STEPS,
{
    if depth <= near {
        0
    } else if depth >= far {
        DEPTH_STEPS - 1
    } else {
        let span = depth as i128 - near as i128;
        let num = span * 0x3ffff;
        let q = num / (far as i128 - near as i128);
        proof {
            let d = depth as int;
            let n = near as int;
            let f = far as int;
            assert(0 <= (d - n) * ((DEPTH_STEPS - 1) as int) / (f - n) < (DEPTH_STEPS - 1) as int)
                by (nonlinear_arith)
                requires
                    0 < n < d < f,
            ;
        }
        q as u32
    }
}

/// Quantization preserves depth order: a splat closer to the camera never
/// gets a larger quantized depth.
pub proof fn lemma_quantize_monotone(d1: int, d2: int, near: int, far: int)
    requires
        0 < near < far,
        d1 <= d2,
    ensures
        quantize_depth_spec(d1, near, far) <= quantize_depth_spec(d2, near, far),
{
    let steps = (DEPTH_STEPS - 1) as int;
    if d1 <= near || d2 >= far {
        if near < d1 && d1 < far {
            assert(0 <= (d1 - near) * steps / (far - near)) by (nonlinear_arith)
                requires
                    0 < near < d1 < far,
                    steps == 0x3ffff,
            ;
        }
        if near < d2 && d2 < far {
            assert(0 <= (d2 - near) * steps / (far - near)) by (nonlinear_arith)
                requires
                    0 < near < d2 < far,
                    steps == 0x3ffff,
            ;
        }
        if d2 >= far && near < d1 < far {
            assert((d1 - near) * steps / (far - near) <= steps) by (nonlinear_arith)
                requires
                    0 < near < d1 < far,
                    steps == 0x3ffff,
            ;
        }
    } else {
        assert((d1 - near) * steps / (far - near) <= (d2 - near) * steps / (far - near))
            by (nonlinear_arith)
            requires
                0 < near < far,
                near < d1 <= d2 < far,
                steps == 0x3ffff,
        ;
    }
}

} // verus!
