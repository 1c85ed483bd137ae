//! Halfblock presentation cells: each terminal cell shows two pixel rows,
//! the top as background and the bottom as foreground, optionally averaged
//! down from a supersampled buffer.

use vstd::prelude::*;

use crate::camera::DIM_MAX;
use crate::raster::lemma_row_major;
use crate::splat::Rgb;

verus! {

/// One terminal cell: the upper pixel (background) and lower (foreground).
#[derive(Clone, Copy, PartialEq, Eq, Structural, Debug)]
pub struct HalfblockCell {
    pub top: Rgb,
    pub bottom: Rgb,
}

/// A channel of a color: red, green, or blue for 0, 1, 2.
pub open spec fn channel_spec(c: Rgb, chan: int) -> int {
    if chan == 0 {
        c.r as int
    } else if chan == 1 {
        c.g as int
    } else {
        c.b as int
    }
}

/// The color a packed framebuffer word holds: R in the low byte, then G,
/// then B.
pub open spec fn rgb_from_packed_spec(pixel: int) -> Rgb {
    Rgb {
        r: (pixel % 256) as u8,
        g: ((pixel / 256) % 256) as u8,
        b: ((pixel / 65536) % 256) as u8,
    }
}

/// Unpacks a framebuffer word into its color.
pub fn rgb_from_packed_pixel(pixel: u32) -> (r: Rgb)
    ensures
        r == rgb_from_packed_spec(pixel as int),
{
    proof {
        assert(pixel & 0xff == pixel % 256 && (pixel >> 8) & 0xff == (pixel / 256) % 256 && (pixel
            >> 16) & 0xff == (pixel / 65536) % 256) by (bit_vector);
    }
    Rgb {
        r: (pixel & 0xff) as u8,
        g: ((pixel >> 8) & 0xff) as u8,
        b: ((pixel >> 16) & 0xff) as u8,
    }
}

/// Unpacking a packed pixel returns the color it was packed from.
pub proof fn lemma_pack_unpack(pix: crate::raster::PixelState)
    requires
        pix.alpha <= crate::fp::FP as u32,
    ensures
        rgb_from_packed_spec(crate::metal::raster::pack_pixel_spec(pix)) == pix.color,
{
    let a8 = (pix.alpha as int) * 255 / 65536;
    assert(0 <= a8 <= 255) by {
        crate::raster::lemma_scale_le(pix.alpha as int, 255);
    }
    let packed = pix.color.r + 256 * pix.color.g + 65536 * pix.color.b + 0x100_0000 * a8;
    assert(packed % 256 == pix.color.r && (packed / 256) % 256 == pix.color.g && (packed / 65536)
        % 256 == pix.color.b) by (nonlinear_arith)
        requires
            packed == pix.color.r + 256 * pix.color.g + 65536 * pix.color.b + 0x100_0000 * a8,
            0 <= pix.color.r < 256,
            0 <= pix.color.g < 256,
            0 <= pix.color.b < 256,
            0 <= a8 <= 255,
    ;
}

/// An empty column range sums to zero over any rows.
proof fn lemma_rect_zero(fb: Seq<Rgb>, w: int, x0: int, x1: int, y0: int, y1: int, chan: int)
    requires
        x1 <= x0,
    ensures
        rect_sum_spec(fb, w, x0, x1, y0, y1, chan) == 0,
    decreases y1 - y0,
{
    if y1 > y0 {
        lemma_rect_zero(fb, w, x0, x1, y0, y1 - 1, chan);
    }
}

/// Sum of one channel over the pixels `[x0, x1)` of row `y`.
pub open spec fn row_sum_spec(fb: Seq<Rgb>, w: int, y: int, x0: int, x1: int, chan: int) -> int
    decreases x1 - x0,
{
    if x1 <= x0 {
        0
    } else {
        row_sum_spec(fb, w, y, x0, x1 - 1, chan) + channel_spec(fb[y * w + (x1 - 1)], chan)
    }
}

/// Sum of one channel over the pixel rectangle `[x0, x1) x [y0, y1)`.
pub open spec fn rect_sum_spec(
    fb: Seq<Rgb>,
    w: int,
    x0: int,
    x1: int,
    y0: int,
    y1: int,
    chan: int,
) -> int
    decreases y1 - y0,
{
    if y1 <= y0 {
        0
    } else {
        rect_sum_spec(fb, w, x0, x1, y0, y1 - 1, chan) + row_sum_spec(fb, w, y1 - 1, x0, x1, chan)
    }
}

/// The mean of one channel over a pixel rectangle; black when it is empty.
pub open spec fn rect_mean_spec(
    fb: Seq<Rgb>,
    w: int,
    x0: int,
    x1: int,
    y0: int,
    y1: int,
    chan: int,
) -> int {
    let count = (x1 - x0) * (y1 - y0);
    if count <= 0 {
        0
    } else {
        rect_sum_spec(fb, w, x0, x1, y0, y1, chan) / count
    }
}

/// Channel sums over a rectangle lie between zero and 255 per pixel.
pub proof fn lemma_row_sum_bounds(fb: Seq<Rgb>, w: int, y: int, x0: int, x1: int, chan: int)
    ensures
        0 <= row_sum_spec(fb, w, y, x0, x1, chan) <= if x1 >= x0 {
            255 * (x1 - x0)
        } else {
            0int
        },
    decreases x1 - x0,
{
    if x1 > x0 {
        lemma_row_sum_bounds(fb, w, y, x0, x1 - 1, chan);
    }
}

/// Channel sums over a rectangle lie between zero and 255 per pixel.
pub proof fn lemma_rect_sum_bounds(
    fb: Seq<Rgb>,
    w: int,
    x0: int,
    x1: int,
    y0: int,
    y1: int,
    chan: int,
)
    requires
        x0 <= x1,
    ensures
        0 <= rect_sum_spec(fb, w, x0, x1, y0, y1, chan) <= if y1 >= y0 {
            255 * ((x1 - x0) * (y1 - y0))
        } else {
            0int
        },
    decreases y1 - y0,
{
    if y1 > y0 {
        lemma_rect_sum_bounds(fb, w, x0, x1, y0, y1 - 1, chan);
        lemma_row_sum_bounds(fb, w, y1 - 1, x0, x1, chan);
        assert(255 * ((x1 - x0) * (y1 - y0)) == 255 * ((x1 - x0) * (y1 - 1 - y0)) + 255 * (x1
            - x0)) by (nonlinear_arith);
    }
}

/// Sums one channel of a clipped pixel rectangle.
fn rect_sum(fb: &Vec<Rgb>, w: usize, x0: usize, x1: usize, y0: usize, y1: usize, chan: u8) -> (s:
    u64)
    requires
        w <= DIM_MAX,
        x1 <= w,
        fb.len() >= y1 * w,
        x1 - x0 <= 0x10000,
        y1 <= DIM_MAX,
    ensures
        s == rect_sum_spec(fb@, w as int, x0 as int, x1 as int, y0 as int, y1 as int, chan as int),
{
    let mut total: u64 = 0;
    let mut y = y0;
    if y1 <= y0 {
        return 0;
    }
    if x1 <= x0 {
        proof {
            assert(forall|yy: int|
                y0 <= yy ==> rect_sum_spec(fb@, w as int, x0 as int, x1 as int, y0 as int, yy,
                    chan as int) == 0) by {
                assert forall|yy: int|
                    y0 <= yy implies rect_sum_spec(fb@, w as int, x0 as int, x1 as int, y0 as int,
                    yy, chan as int) == 0 by {
                    lemma_rect_zero(fb@, w as int, x0 as int, x1 as int, y0 as int, yy, chan as int);
                }
            }
        }
        return 0;
    }
    while y < y1
        invariant
            y0 <= y <= y1,
            w <= DIM_MAX,
            x0 < x1 <= w,
            fb.len() >= y1 * w,
            x1 - x0 <= 0x10000,
            y1 <= DIM_MAX,
            total == rect_sum_spec(fb@, w as int, x0 as int, x1 as int, y0 as int, y as int,
                chan as int),
            total <= 255 * 0x10000 * (y - y0),
        decreases y1 - y,
    {
        let mut row: u64 = 0;
        let mut x = x0;
        proof {
            lemma_row_sum_bounds(fb@, w as int, y as int, x0 as int, x1 as int, chan as int);
        }
        while x < x1
            invariant
                x0 <= x <= x1,
                w <= DIM_MAX,
                x1 <= w,
                y < y1,
                fb.len() >= y1 * w,
                x1 - x0 <= 0x10000,
                y1 <= DIM_MAX,
                row == row_sum_spec(fb@, w as int, y as int, x0 as int, x as int, chan as int),
                row <= 255 * (x - x0),
            decreases x1 - x,
        {
            proof {
                assert(y * w + x < y1 * w) by (nonlinear_arith)
                    requires
                        y < y1,
                        x < w,
                        w >= 1,
                        0 <= y,
                        0 <= x,
                ;
            }
            let c = fb[y * w + x];
            let v: u64 = if chan == 0 {
                c.r as u64
            } else if chan == 1 {
                c.g as u64
            } else {
                c.b as u64
            };
            row = row + v;
            x = x + 1;
        }
        proof {
            assert(255 * 0x10000 * ((y as int) + 1 - y0) == 255 * 0x10000 * ((y as int) - y0) + 255
                * 0x10000) by (nonlinear_arith);
        }
        total = total + row;
        y = y + 1;
    }
    total
}

/// The mean color of a clipped pixel rectangle; black when it is empty.
fn rect_mean(fb: &Vec<Rgb>, w: usize, x0: usize, x1: usize, y0: usize, y1: usize) -> (c: Rgb)
    requires
        w <= DIM_MAX,
        x1 <= w,
        fb.len() >= y1 * w,
        x1 - x0 <= 0x10000,
        y1 <= DIM_MAX,
    ensures
        c.r == rect_mean_spec(fb@, w as int, x0 as int, x1 as int, y0 as int, y1 as int, 0),
        c.g == rect_mean_spec(fb@, w as int, x0 as int, x1 as int, y0 as int, y1 as int, 1),
        c.b == rect_mean_spec(fb@, w as int, x0 as int, x1 as int, y0 as int, y1 as int, 2),
{
    if x1 <= x0 || y1 <= y0 {
        proof {
            let cg = ((x1 as int) - x0) * ((y1 as int) - y0);
            if cg > 0 {
                if x1 <= x0 {
                    lemma_rect_zero(fb@, w as int, x0 as int, x1 as int, y0 as int, y1 as int, 0);
                    lemma_rect_zero(fb@, w as int, x0 as int, x1 as int, y0 as int, y1 as int, 1);
                    lemma_rect_zero(fb@, w as int, x0 as int, x1 as int, y0 as int, y1 as int, 2);
                }
                assert(0int / cg == 0) by (nonlinear_arith)
                    requires
                        cg >= 1,
                ;
            }
        }
        return Rgb { r: 0, g: 0, b: 0 };
    }
    let ghost countg = ((x1 as int) - x0) * ((y1 as int) - y0);
    proof {
        assert(0 < countg <= 0x4000_0000) by (nonlinear_arith)
            requires
                countg == ((x1 as int) - x0) * ((y1 as int) - y0),
                0 < (x1 as int) - x0 <= 0x10000,
                0 < (y1 as int) - y0 <= 0x4000,
        ;
    }
    let count = ((x1 - x0) as u64) * ((y1 - y0) as u64);
    let sr = rect_sum(fb, w, x0, x1, y0, y1, 0);
    let sg = rect_sum(fb, w, x0, x1, y0, y1, 1);
    let sb = rect_sum(fb, w, x0, x1, y0, y1, 2);
    proof {
        lemma_rect_sum_bounds(fb@, w as int, x0 as int, x1 as int, y0 as int, y1 as int, 0);
        lemma_rect_sum_bounds(fb@, w as int, x0 as int, x1 as int, y0 as int, y1 as int, 1);
        lemma_rect_sum_bounds(fb@, w as int, x0 as int, x1 as int, y0 as int, y1 as int, 2);
        assert(forall|s: int|
            0 <= s <= 255 * countg ==> 0 <= #[trigger] (s / countg) <= 255) by (nonlinear_arith)
            requires
                countg >= 1,
        ;
    }
    let r = (sr / count) as u8;
    let g = (sg / count) as u8;
    let b = (sb / count) as u8;
    Rgb { r, g, b }
}

/// The averaged cell a terminal position gets from a supersampled buffer:
/// the top half-block is the mean of its ss-by-ss pixel block, the bottom
/// the mean of the block below it.
pub open spec fn downsample_cell_spec(
    fb: Seq<Rgb>,
    ssw: int,
    ssh: int,
    ss: int,
    row: int,
    col: int,
) -> HalfblockCell {
    let x0 = col * ss;
    let x1 = if (col + 1) * ss <= ssw {
        (col + 1) * ss
    } else {
        ssw
    };
    let ty0 = row * 2 * ss;
    let ty1 = if row * 2 * ss + ss <= ssh {
        row * 2 * ss + ss
    } else {
        ssh
    };
    let by1 = if (row + 1) * 2 * ss <= ssh {
        (row + 1) * 2 * ss
    } else {
        ssh
    };
    HalfblockCell {
        top: Rgb {
            r: rect_mean_spec(fb, ssw, x0, x1, ty0, ty1, 0) as u8,
            g: rect_mean_spec(fb, ssw, x0, x1, ty0, ty1, 1) as u8,
            b: rect_mean_spec(fb, ssw, x0, x1, ty0, ty1, 2) as u8,
        },
        bottom: Rgb {
            r: rect_mean_spec(fb, ssw, x0, x1, ty1, by1, 0) as u8,
            g: rect_mean_spec(fb, ssw, x0, x1, ty1, by1, 1) as u8,
            b: rect_mean_spec(fb, ssw, x0, x1, ty1, by1, 2) as u8,
        },
    }
}

/// Averages a supersampled pixel buffer down to terminal cells: every cell
/// is the block mean of its two half-block pixel rectangles.
pub fn downsample_to_terminal(
    fb: &Vec<Rgb>,
    ss_width: usize,
    ss_height: usize,
    term_cols: usize,
    term_rows: usize,
    ss: usize,
) -> (out: Vec<HalfblockCell>)
    requires
        1 <= ss <= 64,
        term_cols <= DIM_MAX,
        term_rows <= DIM_MAX,
        ss_width <= DIM_MAX,
        ss_height <= DIM_MAX,
        fb.len() == ss_width * ss_height,
    ensures
        out.len() == term_cols * term_rows,
        forall|row: int, col: int|
            0 <= row < term_rows && 0 <= col < term_cols ==> #[trigger] out@[row * term_cols + col]
                == downsample_cell_spec(
                fb@,
                ss_width as int,
                ss_height as int,
                ss as int,
                row,
                col,
            ),
{
    let mut out: Vec<HalfblockCell> = Vec::new();
    let mut row: usize = 0;
    while row < term_rows
        invariant
            row <= term_rows,
            1 <= ss <= 64,
            term_cols <= DIM_MAX,
            term_rows <= DIM_MAX,
            ss_width <= DIM_MAX,
            ss_height <= DIM_MAX,
            fb.len() == ss_width * ss_height,
            out.len() == row * term_cols,
            forall|r: int, c: int|
                0 <= r < row && 0 <= c < term_cols ==> #[trigger] out@[r * term_cols + c]
                    == downsample_cell_spec(
                    fb@,
                    ss_width as int,
                    ss_height as int,
                    ss as int,
                    r,
                    c,
                ),
        decreases term_rows - row,
    {
        let mut col: usize = 0;
        while col < term_cols
            invariant
                col <= term_cols,
                row < term_rows,
                1 <= ss <= 64,
                term_cols <= DIM_MAX,
                term_rows <= DIM_MAX,
                ss_width <= DIM_MAX,
                ss_height <= DIM_MAX,
                fb.len() == ss_width * ss_height,
                out.len() == row * term_cols + col,
                forall|r: int, c: int|
                    (0 <= r < row && 0 <= c < term_cols) || (r == row && 0 <= c < col)
                        ==> #[trigger] out@[r * term_cols + c] == downsample_cell_spec(
                        fb@,
                        ss_width as int,
                        ss_height as int,
                        ss as int,
                        r,
                        c,
                    ),
            decreases term_cols - col,
        {
            proof {
                assert(0 <= col * ss && (col + 1) * ss <= 0x100_0000 && (row + 1) * 2 * ss
                    <= 0x100_0000 && (row as int) * 2 * ss >= 0 && (row as int) * 2 * ss
                    <= 0x100_0000 && (row as int) * 2 * ss + ss <= 0x100_0000 && (col + 1) * ss
                    == col * ss + ss) by (nonlinear_arith)
                    requires
                        col < term_cols,
                        row < term_rows,
                        term_cols <= 16384usize,
                        term_rows <= 16384usize,
                        1 <= ss <= 64usize,
                ;
                assert((ss_height as int) * (ss_width as int) == (ss_width as int) * (
                ss_height as int)) by (nonlinear_arith);
            }
            let x0 = col * ss;
            let xr = (col + 1) * ss;
            let x1 = if xr <= ss_width {
                xr
            } else {
                ss_width
            };
            let ty0 = row * 2 * ss;
            let tyr = row * 2 * ss + ss;
            let ty1 = if tyr <= ss_height {
                tyr
            } else {
                ss_height
            };
            let byr = (row + 1) * 2 * ss;
            let by1 = if byr <= ss_height {
                byr
            } else {
                ss_height
            };
            proof {
                assert((ty1 as int) * (ss_width as int) <= (ss_height as int) * (ss_width as int)
                    && (by1 as int) * (ss_width as int) <= (ss_height as int) * (ss_width as int))
                    by (nonlinear_arith)
                    requires
                        ty1 <= ss_height,
                        by1 <= ss_height,
                        ss_width >= 0,
                ;
            }
            let top = rect_mean(fb, ss_width, x0, x1, ty0, ty1);
            let bottom = rect_mean(fb, ss_width, x0, x1, ty1, by1);
            let ghost pre = out@;
            out.push(HalfblockCell { top, bottom });
            proof {
                assert forall|r: int, c: int|
                    (0 <= r < row && 0 <= c < term_cols) || (r == row && 0 <= c < col + 1) implies
                    #[trigger] out@[r * term_cols + c] == downsample_cell_spec(
                    fb@,
                    ss_width as int,
                    ss_height as int,
                    ss as int,
                    r,
                    c,
                ) by {
                    lemma_row_major(
                        term_cols as int,
                        term_rows as int,
                        col as int,
                        row as int,
                        c,
                        r,
                    );
                    lemma_row_major(
                        term_cols as int,
                        term_rows as int,
                        c,
                        r,
                        col as int,
                        row as int,
                    );
                    if r == row && c == col {
                        assert(pre.len() == (row as int) * (term_cols as int) + (col as int));
                        assert(r * term_cols + c == (row as int) * (term_cols as int) + (
                        col as int));
                        assert(out@[r * term_cols + c] == (HalfblockCell { top, bottom }));
                    } else {
                        assert(r * term_cols + c < (row as int) * term_cols + col)
                            by (nonlinear_arith)
                            requires
                                (r < row && 0 <= c < term_cols) || (r == row && 0 <= c < col),
                                0 <= r,
                                0 <= col,
                        ;
                        assert(out@[r * term_cols + c] == pre[r * term_cols + c]);
                    }
                }
            }
            col = col + 1;
        }
        proof {
            assert(((row as int) + 1) * term_cols == (row as int) * term_cols + term_cols)
                by (nonlinear_arith);
        }
        row = row + 1;
    }
    proof {
        assert((term_rows as int) * term_cols == (term_cols as int) * term_rows)
            by (nonlinear_arith);
    }
    out
}

/// The cell a terminal position gets without supersampling: the two pixel
/// rows it covers, read directly.
pub open spec fn direct_cell_spec(fb: Seq<Rgb>, ssw: int, ssh: int, row: int, col: int)
    -> HalfblockCell {
    HalfblockCell {
        top: fb[(2 * row) * ssw + col],
        bottom: if 2 * row + 1 < ssh {
            fb[(2 * row + 1) * ssw + col]
        } else {
            Rgb { r: 0, g: 0, b: 0 }
        },
    }
}

/// Builds the halfblock cells from an RGB pixel buffer: pixels are read
/// directly without supersampling, and averaged down otherwise.
pub fn build_halfblock_cells_rgb(
    fb: &Vec<Rgb>,
    ss_width: usize,
    ss_height: usize,
    term_cols: usize,
    term_rows: usize,
    ss: usize,
    out: &mut Vec<HalfblockCell>,
) -> (nothing: ())
    requires
        1 <= ss <= 64,
        ss_width == term_cols * ss,
        ss_height == term_rows * 2 * ss,
        ss_width <= DIM_MAX,
        ss_height <= DIM_MAX,
        fb.len() == ss_width * ss_height,
    ensures
        final(out).len() == term_cols * term_rows,
        ss == 1 ==> forall|row: int, col: int|
            0 <= row < term_rows && 0 <= col < term_cols ==> #[trigger] final(out)@[row * term_cols
                + col] == direct_cell_spec(fb@, ss_width as int, ss_height as int, row, col),
        ss > 1 ==> forall|row: int, col: int|
            0 <= row < term_rows && 0 <= col < term_cols ==> #[trigger] final(out)@[row * term_cols
                + col] == downsample_cell_spec(
                fb@,
                ss_width as int,
                ss_height as int,
                ss as int,
                row,
                col,
            ),
{
    if ss == 1 {
        let mut cells: Vec<HalfblockCell> = Vec::new();
        let mut row: usize = 0;
        while row < term_rows
            invariant
                row <= term_rows,
                ss_width == term_cols,
                ss_height == term_rows * 2,
                ss_width <= DIM_MAX,
                ss_height <= DIM_MAX,
                fb.len() == ss_width * ss_height,
                cells.len() == row * term_cols,
                forall|r: int, c: int|
                    0 <= r < row && 0 <= c < term_cols ==> #[trigger] cells@[r * term_cols + c]
                        == direct_cell_spec(fb@, ss_width as int, ss_height as int, r, c),
            decreases term_rows - row,
        {
            let mut col: usize = 0;
            while col < term_cols
                invariant
                    col <= term_cols,
                    row < term_rows,
                    ss_width == term_cols,
                    ss_height == term_rows * 2,
                    ss_width <= DIM_MAX,
                    ss_height <= DIM_MAX,
                    fb.len() == ss_width * ss_height,
                    cells.len() == row * term_cols + col,
                    forall|r: int, c: int|
                        (0 <= r < row && 0 <= c < term_cols) || (r == row && 0 <= c < col)
                            ==> #[trigger] cells@[r * term_cols + c] == direct_cell_spec(
                            fb@,
                            ss_width as int,
                            ss_height as int,
                            r,
                            c,
                        ),
                decreases term_cols - col,
            {
                proof {
                    assert((2 * (row as int)) * ss_width + col < (ss_width as int) * ss_height && (2
                        * (row as int) + 1) * ss_width + col < (ss_width as int) * ss_height)
                        by (nonlinear_arith)
                        requires
                            row < term_rows,
                            col < term_cols,
                            ss_width == term_cols,
                            ss_height == (term_rows as int) * 2,
                            term_cols >= 1,
                    ;
                }
                let top = fb[(2 * row) * ss_width + col];
                let bottom_y = 2 * row + 1;
                let bottom = if bottom_y < ss_height {
                    fb[bottom_y * ss_width + col]
                } else {
                    Rgb { r: 0, g: 0, b: 0 }
                };
                let ghost pre = cells@;
                cells.push(HalfblockCell { top, bottom });
                proof {
                    assert forall|r: int, c: int|
                        (0 <= r < row && 0 <= c < term_cols) || (r == row && 0 <= c < col + 1)
                        implies #[trigger] cells@[r * term_cols + c] == direct_cell_spec(
                        fb@,
                        ss_width as int,
                        ss_height as int,
                        r,
                        c,
                    ) by {
                        lemma_row_major(
                            term_cols as int,
                            term_rows as int,
                            col as int,
                            row as int,
                            c,
                            r,
                        );
                        lemma_row_major(
                            term_cols as int,
                            term_rows as int,
                            c,
                            r,
                            col as int,
                            row as int,
                        );
                        if r == row && c == col {
                            assert(r * term_cols + c == pre.len());
                            assert(cells@ == pre.push(HalfblockCell { top, bottom }));
                            assert(cells@[r * term_cols + c] == (HalfblockCell { top, bottom }));
                            assert((2 * r) * (ss_width as int) + c == (2 * (row as int)) * (
                            ss_width as int) + col);
                        } else {
                            assert(r * term_cols + c < (row as int) * term_cols + col)
                                by (nonlinear_arith)
                                requires
                                    (r < row && 0 <= c < term_cols) || (r == row && 0 <= c < col),
                                    0 <= r,
                                    0 <= col,
                            ;
                            assert(cells@[r * term_cols + c] == pre[r * term_cols + c]);
                        }
                    }
                }
                col = col + 1;
            }
            proof {
                assert(((row as int) + 1) * term_cols == (row as int) * term_cols + term_cols)
                    by (nonlinear_arith);
            }
            row = row + 1;
        }
        proof {
            assert((term_rows as int) * term_cols == (term_cols as int) * term_rows)
                by (nonlinear_arith);
        }
        *out = cells;
    } else {
        proof {
            assert(term_cols <= term_cols * ss && term_rows <= term_rows * 2 * ss)
                by (nonlinear_arith)
                requires
                    ss >= 1,
            ;
        }
        *out = downsample_to_terminal(fb, ss_width, ss_height, term_cols, term_rows, ss);
    }
}

/// The colors a packed framebuffer holds, word by word.
pub open spec fn unpack_seq_spec(s: Seq<u32>) -> Seq<Rgb> {
    Seq::new(s.len(), |i: int| rgb_from_packed_spec(s[i] as int))
}

/// Builds the halfblock cells from a packed framebuffer: every word is
/// unpacked and the cells are built as from an RGB buffer.
pub fn build_halfblock_cells_packed(
    packed_fb: &Vec<u32>,
    ss_width: usize,
    ss_height: usize,
    term_cols: usize,
    term_rows: usize,
    ss: usize,
    out: &mut Vec<HalfblockCell>,
) -> (nothing: ())
    requires
        1 <= ss <= 64,
        ss_width == term_cols * ss,
        ss_height == term_rows * 2 * ss,
        ss_width <= DIM_MAX,
        ss_height <= DIM_MAX,
        packed_fb.len() == ss_width * ss_height,
    ensures
        final(out).len() == term_cols * term_rows,
        ss == 1 ==> forall|row: int, col: int|
            0 <= row < term_rows && 0 <= col < term_cols ==> #[trigger] final(out)@[row * term_cols
                + col] == direct_cell_spec(
                unpack_seq_spec(packed_fb@),
                ss_width as int,
                ss_height as int,
                row,
                col,
            ),
        ss > 1 ==> forall|row: int, col: int|
            0 <= row < term_rows && 0 <= col < term_cols ==> #[trigger] final(out)@[row * term_cols
                + col] == downsample_cell_spec(
                unpack_seq_spec(packed_fb@),
                ss_width as int,
                ss_height as int,
                ss as int,
                row,
                col,
            ),
{
    let n = packed_fb.len();
    let mut rgb: Vec<Rgb> = Vec::new();
    let mut i: usize = 0;
    while i < n
        invariant
            i <= n,
            n == packed_fb.len(),
            rgb.len() == i,
            forall|k: int|
                0 <= k < i ==> #[trigger] rgb@[k] == rgb_from_packed_spec(packed_fb@[k] as int),
        decreases n - i,
    {
        let c = rgb_from_packed_pixel(packed_fb[i]);
        rgb.push(c);
        i = i + 1;
    }
    proof {
        assert(rgb@ =~= unpack_seq_spec(packed_fb@));
    }
    build_halfblock_cells_rgb(&rgb, ss_width, ss_height, term_cols, term_rows, ss, out);
}

/// Cuts a text down to `width` characters, or pads it with spaces up to
/// `width`.
pub fn truncate_and_pad_in_place(text: &mut Vec<char>, width: usize) -> (nothing: ())
    ensures
        final(text).len() == width,
        forall|i: int|
            0 <= i < width ==> #[trigger] final(text)@[i] == (if i < old(text).len() {
                old(text)@[i]
            } else {
                ' '
            }),
{
    if text.len() > width {
        text.truncate(width);
        return ;
    }
    while text.len() < width
        invariant
            text.len() <= width,
            forall|i: int|
                0 <= i < text.len() ==> #[trigger] text@[i] == (if i < old(text).len() {
                    old(text)@[i]
                } else {
                    ' '
                }),
            text.len() >= old(text).len(),
        decreases width - text.len(),
    {
        text.push(' ');
    }
}

} // verus!
