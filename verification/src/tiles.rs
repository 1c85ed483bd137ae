//! Tile binning for the tile-based back-end: which 16x16 screen tiles each
//! projected splat overlaps, how many overlaps each tile collects, and the
//! packed (tile, depth, tie) sort keys emitted per overlap.

use vstd::prelude::*;

use crate::keys::{pack_key, pack_key_spec, quantize_depth, quantize_depth_spec, MAX_TILE_ID};
use crate::radix::KeyValue;
use crate::raster::{box_max_spec, box_min_spec};
use crate::splat::{projected_wf, ProjectedSplat, FAR_LIMIT};

verus! {

/// Pixels per tile edge.
pub const TILE_SIZE: u32 = 16;

/// The tile grid over a screen.
#[derive(Clone, Copy, PartialEq, Eq, Structural, Debug)]
pub struct TileConfig {
    pub tile_count_x: u32,
    pub tile_count_y: u32,
    pub screen_width: u32,
    pub screen_height: u32,
}

/// A usable tile grid: covers the screen and fits the key's 10-bit tile id.
pub open spec fn tile_config_wf(tc: TileConfig) -> bool {
    &&& 1 <= tc.tile_count_x
    &&& 1 <= tc.tile_count_y
    &&& tc.tile_count_x * tc.tile_count_y <= MAX_TILE_ID + 1
    &&& tc.screen_width <= tc.tile_count_x * TILE_SIZE
    &&& tc.screen_height <= tc.tile_count_y * TILE_SIZE
    &&& tc.screen_width <= crate::camera::DIM_MAX as u32
    &&& tc.screen_height <= crate::camera::DIM_MAX as u32
}

/// Whether a splat's clipped pixel box intersects tile (tx, ty).
pub open spec fn covers_tile_spec(s: ProjectedSplat, tc: TileConfig, tx: int, ty: int) -> bool {
    &&& box_min_spec(s.screen_x as int, s.radius_x as int) <= 16 * tx + 15
    &&& 16 * tx <= box_max_spec(s.screen_x as int, s.radius_x as int, tc.screen_width as int)
    &&& box_min_spec(s.screen_y as int, s.radius_y as int) <= 16 * ty + 15
    &&& 16 * ty <= box_max_spec(s.screen_y as int, s.radius_y as int, tc.screen_height as int)
}

/// Whether a splat overlaps tile index `t` of the grid (row-major).
pub open spec fn covers_tile_index_spec(s: ProjectedSplat, tc: TileConfig, t: int) -> bool {
    covers_tile_spec(s, tc, t % (tc.tile_count_x as int), t / (tc.tile_count_x as int))
}

/// Tests whether a splat's clipped pixel box intersects a tile.
fn covers_tile(s: &ProjectedSplat, tc: &TileConfig, tx: u32, ty: u32) -> (r: bool)
    requires
        projected_wf(*s),
        tile_config_wf(*tc),
        tx < tc.tile_count_x,
        ty < tc.tile_count_y,
    ensures
        r == covers_tile_spec(*s, *tc, tx as int, ty as int),
{
    let min_x = if s.screen_x - s.radius_x <= 0 {
        0i64
    } else {
        (s.screen_x - s.radius_x) / 65536
    };
    let max_x = if s.screen_x + s.radius_x < 0 {
        -1i64
    } else {
        let v = (s.screen_x + s.radius_x + 65535) / 65536;
        if v > tc.screen_width as i64 - 1 {
            tc.screen_width as i64 - 1
        } else {
            v
        }
    };
    let min_y = if s.screen_y - s.radius_y <= 0 {
        0i64
    } else {
        (s.screen_y - s.radius_y) / 65536
    };
    let max_y = if s.screen_y + s.radius_y < 0 {
        -1i64
    } else {
        let v = (s.screen_y + s.radius_y + 65535) / 65536;
        if v > tc.screen_height as i64 - 1 {
            tc.screen_height as i64 - 1
        } else {
            v
        }
    };
    min_x <= 16 * (tx as i64) + 15 && 16 * (tx as i64) <= max_x && min_y <= 16 * (ty as i64) + 15
        && 16 * (ty as i64) <= max_y
}

/// How many of the splats overlap tile index `t`.
pub open spec fn tile_count_spec(splats: Seq<ProjectedSplat>, tc: TileConfig, t: int) -> int
    decreases splats.len(),
{
    if splats.len() == 0 {
        0
    } else {
        tile_count_spec(splats.drop_last(), tc, t) + if covers_tile_index_spec(
            splats.last(),
            tc,
            t,
        ) {
            1int
        } else {
            0int
        }
    }
}

/// A tile's overlap count never exceeds the splat count.
pub proof fn lemma_tile_count_bound(splats: Seq<ProjectedSplat>, tc: TileConfig, t: int)
    ensures
        0 <= tile_count_spec(splats, tc, t) <= splats.len(),
    decreases splats.len(),
{
    if splats.len() > 0 {
        lemma_tile_count_bound(splats.drop_last(), tc, t);
    }
}

/// Counts, for every tile of the grid, the splats overlapping it.
pub fn count_tile_overlaps(
    projected: &Vec<ProjectedSplat>,
    tc: &TileConfig,
) -> (counts: Vec<u32>)
    requires
        forall|i: int| 0 <= i < projected.len() ==> projected_wf(#[trigger] projected@[i]),
        tile_config_wf(*tc),
        projected.len() <= 0xFFFF_FFFF,
    ensures
        counts.len() == tc.tile_count_x * tc.tile_count_y,
        forall|t: int|
            0 <= t < counts.len() ==> counts@[t] == tile_count_spec(projected@, *tc, t),
{
    let num_tiles = (tc.tile_count_x * tc.tile_count_y) as usize;
    let n = projected.len();
    let mut counts: Vec<u32> = Vec::new();
    let mut t: usize = 0;
    while t < num_tiles
        invariant
            t <= num_tiles,
            num_tiles == tc.tile_count_x * tc.tile_count_y,
            tile_config_wf(*tc),
            n == projected.len(),
            n <= 0xFFFF_FFFF,
            forall|i: int| 0 <= i < projected.len() ==> projected_wf(#[trigger] projected@[i]),
            counts.len() == t,
            forall|q: int| 0 <= q < t ==> counts@[q] == tile_count_spec(projected@, *tc, q),
        decreases num_tiles - t,
    {
        let tx = (t as u32) % tc.tile_count_x;
        let ty = (t as u32) / tc.tile_count_x;
        proof {
            assert(ty < tc.tile_count_y) by (nonlinear_arith)
                requires
                    t < tc.tile_count_x * tc.tile_count_y,
                    tc.tile_count_x >= 1,
                    tx == (t as u32) % tc.tile_count_x,
                    ty == (t as u32) / tc.tile_count_x,
                    t <= 0xFFFF_FFFFusize,
            ;
        }
        let mut cnt: u32 = 0;
        let mut i: usize = 0;
        proof {
            assert(projected@.take(0) =~= Seq::<ProjectedSplat>::empty());
        }
        while i < n
            invariant
                i <= n,
                n == projected.len(),
                n <= 0xFFFF_FFFF,
                tile_config_wf(*tc),
                t < num_tiles,
                num_tiles == tc.tile_count_x * tc.tile_count_y,
                tx == (t as u32) % tc.tile_count_x,
                ty == (t as u32) / tc.tile_count_x,
                tx < tc.tile_count_x,
                ty < tc.tile_count_y,
                forall|k: int| 0 <= k < projected.len() ==> projected_wf(#[trigger] projected@[k]),
                cnt == tile_count_spec(projected@.take(i as int), *tc, t as int),
                cnt <= i,
            decreases n - i,
        {
            proof {
                assert(projected@.take(i + 1).drop_last() =~= projected@.take(i as int));
                assert(projected@.take(i + 1).last() == projected@[i as int]);
            }
            if covers_tile(&projected[i], tc, tx, ty) {
                cnt = cnt + 1;
            }
            i = i + 1;
        }
        proof {
            assert(projected@.take(n as int) =~= projected@);
        }
        counts.push(cnt);
        t = t + 1;
    }
    counts
}

/// The sort entry one overlap emits: the packed key and the splat's index.
pub open spec fn kv_of_spec(
    s: ProjectedSplat,
    t: int,
    near: int,
    far: int,
    index: int,
) -> KeyValue {
    KeyValue {
        key: pack_key_spec(
            t as u32,
            quantize_depth_spec(s.depth as int, near, far) as u32,
            (index % 16) as u32,
        ) as u32,
        value: index as u32,
    }
}

/// The entries tile `t` collects, in splat order.
pub open spec fn tile_entries_spec(
    splats: Seq<ProjectedSplat>,
    tc: TileConfig,
    t: int,
    near: int,
    far: int,
) -> Seq<KeyValue>
    decreases splats.len(),
{
    if splats.len() == 0 {
        Seq::empty()
    } else {
        let prev = tile_entries_spec(splats.drop_last(), tc, t, near, far);
        if covers_tile_index_spec(splats.last(), tc, t) {
            prev.push(kv_of_spec(splats.last(), t, near, far, splats.len() - 1))
        } else {
            prev
        }
    }
}

/// A tile collects exactly as many entries as its overlap count.
pub proof fn lemma_tile_entries_len(
    splats: Seq<ProjectedSplat>,
    tc: TileConfig,
    t: int,
    near: int,
    far: int,
)
    ensures
        tile_entries_spec(splats, tc, t, near, far).len() == tile_count_spec(splats, tc, t),
    decreases splats.len(),
{
    if splats.len() > 0 {
        lemma_tile_entries_len(splats.drop_last(), tc, t, near, far);
    }
}

/// The entries of tiles `0 ..= d`, tile by tile.
pub open spec fn tiles_concat_spec(
    splats: Seq<ProjectedSplat>,
    tc: TileConfig,
    d: int,
    near: int,
    far: int,
) -> Seq<KeyValue>
    decreases d + 1,
{
    if d < 0 {
        Seq::empty()
    } else {
        tiles_concat_spec(splats, tc, d - 1, near, far) + tile_entries_spec(
            splats,
            tc,
            d,
            near,
            far,
        )
    }
}

/// All sort entries of a frame: every tile's entries, grouped tile by tile.
pub open spec fn emit_spec(
    splats: Seq<ProjectedSplat>,
    tc: TileConfig,
    near: int,
    far: int,
) -> Seq<KeyValue> {
    tiles_concat_spec(splats, tc, tc.tile_count_x * tc.tile_count_y - 1, near, far)
}

/// Sum of the overlap counts of tiles `0 ..= d`.
pub open spec fn sum_tile_counts_spec(
    splats: Seq<ProjectedSplat>,
    tc: TileConfig,
    d: int,
) -> int
    decreases d + 1,
{
    if d < 0 {
        0
    } else {
        sum_tile_counts_spec(splats, tc, d - 1) + tile_count_spec(splats, tc, d)
    }
}

/// The grouped entries of tiles `0 ..= d` number exactly the summed counts.
pub proof fn lemma_tiles_concat_len(
    splats: Seq<ProjectedSplat>,
    tc: TileConfig,
    d: int,
    near: int,
    far: int,
)
    ensures
        tiles_concat_spec(splats, tc, d, near, far).len() == sum_tile_counts_spec(splats, tc, d),
        sum_tile_counts_spec(splats, tc, d) >= 0,
    decreases d + 1,
{
    if d >= 0 {
        lemma_tiles_concat_len(splats, tc, d - 1, near, far);
        lemma_tile_entries_len(splats, tc, d, near, far);
        lemma_tile_count_bound(splats, tc, d);
    }
}

/// The per-tile counts vector sums to the summed counts, prefix by prefix.
pub proof fn lemma_counts_sum(
    counts: Seq<u32>,
    splats: Seq<ProjectedSplat>,
    tc: TileConfig,
    d: int,
)
    requires
        -1 <= d < counts.len(),
        forall|t: int| 0 <= t < counts.len() ==> counts[t] == tile_count_spec(splats, tc, t),
    ensures
        crate::scan::seq_sum(counts.take(d + 1)) == sum_tile_counts_spec(splats, tc, d),
    decreases d + 1,
{
    if d >= 0 {
        lemma_counts_sum(counts, splats, tc, d - 1);
        crate::scan::lemma_seq_sum_take_step(counts, d);
    } else {
        assert(counts.take(0) =~= Seq::<u32>::empty());
    }
}

/// Emits one (key, value) pair per splat-tile overlap, grouped by tile and
/// in splat order within a tile.
pub fn emit_tile_keys(
    projected: &Vec<ProjectedSplat>,
    tc: &TileConfig,
    near: i64,
    far: i64,
) -> (r: Vec<KeyValue>)
    requires
        forall|i: int| 0 <= i < projected.len() ==> projected_wf(#[trigger] projected@[i]),
        tile_config_wf(*tc),
        projected.len() <= 0xFFFF_FFFF,
        0 < near < far <= FAR_LIMIT,
    ensures
        r@ == emit_spec(projected@, *tc, near as int, far as int),
{
    let num_tiles = (tc.tile_count_x * tc.tile_count_y) as usize;
    let n = projected.len();
    let mut out: Vec<KeyValue> = Vec::new();
    let mut t: usize = 0;
    proof {
        assert(tiles_concat_spec(projected@, *tc, -1, near as int, far as int) =~= Seq::<
            KeyValue,
        >::empty());
    }
    while t < num_tiles
        invariant
            t <= num_tiles,
            num_tiles == tc.tile_count_x * tc.tile_count_y,
            tile_config_wf(*tc),
            n == projected.len(),
            n <= 0xFFFF_FFFF,
            0 < near < far <= FAR_LIMIT,
            forall|i: int| 0 <= i < projected.len() ==> projected_wf(#[trigger] projected@[i]),
            out@ == tiles_concat_spec(projected@, *tc, t - 1, near as int, far as int),
        decreases num_tiles - t,
    {
        let tx = (t as u32) % tc.tile_count_x;
        let ty = (t as u32) / tc.tile_count_x;
        proof {
            assert(ty < tc.tile_count_y) by (nonlinear_arith)
                requires
                    t < tc.tile_count_x * tc.tile_count_y,
                    tc.tile_count_x >= 1,
                    tx == (t as u32) % tc.tile_count_x,
                    ty == (t as u32) / tc.tile_count_x,
                    t <= 0xFFFF_FFFFusize,
            ;
        }
        let mut i: usize = 0;
        proof {
            assert(projected@.take(0) =~= Seq::<ProjectedSplat>::empty());
            assert(out@ == tiles_concat_spec(projected@, *tc, t - 1, near as int, far as int)
                + tile_entries_spec(
                projected@.take(0),
                *tc,
                t as int,
                near as int,
                far as int,
            ));
        }
        while i < n
            invariant
                i <= n,
                n == projected.len(),
                n <= 0xFFFF_FFFF,
                tile_config_wf(*tc),
                t < num_tiles,
                num_tiles == tc.tile_count_x * tc.tile_count_y,
                0 < near < far <= FAR_LIMIT,
                tx == (t as u32) % tc.tile_count_x,
                ty == (t as u32) / tc.tile_count_x,
                tx < tc.tile_count_x,
                ty < tc.tile_count_y,
                forall|k: int| 0 <= k < projected.len() ==> projected_wf(#[trigger] projected@[k]),
                out@ == tiles_concat_spec(projected@, *tc, t - 1, near as int, far as int)
                    + tile_entries_spec(
                    projected@.take(i as int),
                    *tc,
                    t as int,
                    near as int,
                    far as int,
                ),
            decreases n - i,
        {
            proof {
                assert(projected@.take(i + 1).drop_last() =~= projected@.take(i as int));
                assert(projected@.take(i + 1).last() == projected@[i as int]);
            }
            let s = projected[i];
            if covers_tile(&s, tc, tx, ty) {
                let dq = quantize_depth(s.depth, near, far);
                let key = pack_key(t as u32, dq, (i as u32) % 16);
                out.push(KeyValue { key, value: i as u32 });
            }
            i = i + 1;
        }
        proof {
            assert(projected@.take(n as int) =~= projected@);
        }
        t = t + 1;
    }
    out
}

} // verus!
