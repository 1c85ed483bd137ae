use tortuise::cells::{
    build_halfblock_cells_rgb, downsample_to_terminal, rgb_from_packed_pixel,
    truncate_and_pad_in_place, HalfblockCell,
};
use tortuise::color::rgb_to_ansi256;
use tortuise::fp::{fp_div, fp_mul, isqrt_u64};
use tortuise::input::{HeldMovementKeys, InputState, MoveKey};
use tortuise::keys::{pack_key, quantize_depth};
use tortuise::metal::buffers::required_block_sum_elements;
use tortuise::metal::sort::div_ceil_u32;
use tortuise::modes::{is_hud_overlay_row, Backend, CameraMode, RenderMode};
use tortuise::radix::{radix_sort_pairs, KeyValue};
use tortuise::raster::evaluate_2d_gaussian;
use tortuise::scan::prefix_scan_exclusive;
use tortuise::splat::{invert_2x2_covariance, Rgb};

#[test]
fn fixed_point_products_and_quotients() {
    assert_eq!(fp_mul(65536, 65536), 65536);
    assert_eq!(fp_mul(32768, 32768), 16384);
    assert_eq!(fp_mul(-32768, 32768), -16384);
    assert_eq!(fp_div(65536, 32768), 131072);
    assert_eq!(fp_div(-65536, 32768), -131072);
    assert_eq!(isqrt_u64(16), 4);
    assert_eq!(isqrt_u64(17), 4);
    assert_eq!(isqrt_u64(0), 0);
}

#[test]
fn covariance_inversion_handles_either_determinant_sign() {
    let (ia, ib, ic) = invert_2x2_covariance(131072, 0, 32768).expect("diagonal case inverts");
    assert_eq!(ia, 32768);
    assert_eq!(ib, 0);
    assert_eq!(ic, 131072);
    let (na, nb, nc) =
        invert_2x2_covariance(65536, 131072, 65536).expect("an indefinite form still inverts");
    assert_eq!(na, -21845);
    assert_eq!(nb, 43690);
    assert_eq!(nc, -21845);
    assert!(invert_2x2_covariance(65536, 65536, 65536).is_none(), "a singular form is rejected");
}

#[test]
fn packed_keys_sort_by_tile_then_depth_then_tie() {
    let a = pack_key(1, 0, 15);
    let b = pack_key(2, 0, 0);
    let c = pack_key(2, 1, 0);
    let d = pack_key(2, 1, 3);
    assert!(a < b && b < c && c < d);
    assert_eq!(pack_key(0, 0, 0), 0);
    assert_eq!(pack_key(1, 0, 0), 0x400000);
}

#[test]
fn depth_quantization_is_clamped_and_monotone() {
    let near = 6554;
    let far = 65536000;
    assert_eq!(quantize_depth(0, near, far), 0);
    assert_eq!(quantize_depth(near, near, far), 0);
    assert_eq!(quantize_depth(far, near, far), 0x3ffff);
    assert_eq!(quantize_depth(far + 100, near, far), 0x3ffff);
    let mut last = 0;
    for d in [near + 1, 100000, 1000000, 10000000, far - 1] {
        let q = quantize_depth(d, near, far);
        assert!(q >= last);
        last = q;
    }
}

#[test]
fn radix_sort_orders_pairs_and_keeps_them() {
    let pairs = vec![
        KeyValue { key: 0xffff_0000, value: 1 },
        KeyValue { key: 3, value: 2 },
        KeyValue { key: 0x8000_0001, value: 3 },
        KeyValue { key: 3, value: 4 },
        KeyValue { key: 0, value: 5 },
    ];
    let sorted = radix_sort_pairs(&pairs);
    assert_eq!(sorted.len(), pairs.len());
    for i in 1..sorted.len() {
        assert!(sorted[i - 1].key <= sorted[i].key);
    }
    assert_eq!(sorted[0], KeyValue { key: 0, value: 5 });
    assert_eq!(sorted[1], KeyValue { key: 3, value: 2 });
    assert_eq!(sorted[2], KeyValue { key: 3, value: 4 }, "equal keys keep their input order");
    assert_eq!(sorted[4], KeyValue { key: 0xffff_0000, value: 1 });
}

#[test]
fn prefix_scan_yields_exclusive_offsets_and_total() {
    let counts = vec![3u32, 0, 5, 2];
    let offsets = prefix_scan_exclusive(&counts);
    assert_eq!(offsets, vec![0, 3, 3, 8, 10]);
}

#[test]
fn gaussian_weight_is_one_at_center_and_zero_past_cutoff() {
    let g0 = evaluate_2d_gaussian(0, 0, 2133, 0, 2133);
    assert_eq!(g0, 65536);
    let far = evaluate_2d_gaussian(40 * 65536, 0, 65536, 0, 65536);
    assert_eq!(far, 0);
    let mid = evaluate_2d_gaussian(65536, 0, 65536, 0, 65536);
    assert!(mid > 35000 && mid < 45000, "exp(-1/2) should be near 0.6065, got {}", mid);
}

#[test]
fn ansi256_maps_primaries_and_grays() {
    assert_eq!(rgb_to_ansi256(0, 0, 0), 16);
    assert_eq!(rgb_to_ansi256(255, 255, 255), 231);
    assert_eq!(rgb_to_ansi256(255, 0, 0), 196);
    assert_eq!(rgb_to_ansi256(0, 255, 0), 46);
    assert_eq!(rgb_to_ansi256(0, 0, 255), 21);
    let gray = rgb_to_ansi256(128, 128, 128);
    assert!((232..=255).contains(&gray), "mid gray should use the gray ramp, got {}", gray);
}

#[test]
fn packed_pixels_unpack_in_rgba_order() {
    let c = rgb_from_packed_pixel(0x00FF8040);
    assert_eq!(c, Rgb { r: 0x40, g: 0x80, b: 0xFF });
    assert_eq!(rgb_from_packed_pixel(0xFF000000), Rgb { r: 0, g: 0, b: 0 });
}

#[test]
fn halfblock_cells_pair_two_pixel_rows() {
    let fb = vec![
        Rgb { r: 1, g: 0, b: 0 },
        Rgb { r: 2, g: 0, b: 0 },
        Rgb { r: 3, g: 0, b: 0 },
        Rgb { r: 4, g: 0, b: 0 },
    ];
    let mut out: Vec<HalfblockCell> = Vec::new();
    build_halfblock_cells_rgb(&fb, 2, 2, 2, 1, 1, &mut out);
    assert_eq!(out.len(), 2);
    assert_eq!(out[0].top, Rgb { r: 1, g: 0, b: 0 });
    assert_eq!(out[0].bottom, Rgb { r: 3, g: 0, b: 0 });
    assert_eq!(out[1].top, Rgb { r: 2, g: 0, b: 0 });
    assert_eq!(out[1].bottom, Rgb { r: 4, g: 0, b: 0 });
}

#[test]
fn downsample_averages_pixel_blocks() {
    let mut fb = Vec::new();
    for y in 0..4 {
        for _x in 0..2 {
            let v = if y < 2 { 10 } else { 30 };
            fb.push(Rgb { r: v, g: v, b: v });
        }
    }
    let cells = downsample_to_terminal(&fb, 2, 4, 1, 1, 2);
    assert_eq!(cells.len(), 1);
    assert_eq!(cells[0].top, Rgb { r: 10, g: 10, b: 10 });
    assert_eq!(cells[0].bottom, Rgb { r: 30, g: 30, b: 30 });
}

#[test]
fn downsample_clips_partial_blocks_at_the_edge() {
    let mut fb = Vec::new();
    for y in 0..4 {
        for x in 0..3 {
            let v = match (x == 2, y < 2) {
                (false, true) => 10,
                (false, false) => 20,
                (true, true) => 40,
                (true, false) => 80,
            };
            fb.push(Rgb { r: v, g: v, b: v });
        }
    }
    let cells = downsample_to_terminal(&fb, 3, 4, 2, 1, 2);
    assert_eq!(cells.len(), 2);
    assert_eq!(cells[0].top, Rgb { r: 10, g: 10, b: 10 });
    assert_eq!(cells[0].bottom, Rgb { r: 20, g: 20, b: 20 });
    assert_eq!(cells[1].top, Rgb { r: 40, g: 40, b: 40 }, "the edge block holds one column");
    assert_eq!(cells[1].bottom, Rgb { r: 80, g: 80, b: 80 });
}

#[test]
fn hud_text_is_cut_or_padded_to_width() {
    let mut text: Vec<char> = "splats".chars().collect();
    truncate_and_pad_in_place(&mut text, 3);
    assert_eq!(text, vec!['s', 'p', 'l']);
    truncate_and_pad_in_place(&mut text, 5);
    assert_eq!(text, vec!['s', 'p', 'l', ' ', ' ']);
    truncate_and_pad_in_place(&mut text, 0);
    assert!(text.is_empty());
}

#[test]
fn render_modes_cycle_through_all_six() {
    let mut mode = RenderMode::Halfblock;
    let mut seen = Vec::new();
    for _ in 0..6 {
        seen.push(mode.name());
        mode = mode.next();
    }
    assert_eq!(mode, RenderMode::Halfblock);
    assert_eq!(
        seen,
        vec!["Halfblock", "PointCloud", "Matrix", "BlockDensity", "Braille", "AsciiClassic"]
    );
    assert_eq!(CameraMode::Free.name(), "FREE");
    assert_eq!(CameraMode::Orbit.name(), "ORBIT");
    assert_eq!(Backend::Cpu.name(), "CPU");
    assert_eq!(Backend::Metal.name(), "Metal");
}

#[test]
fn hud_overlay_covers_first_and_last_rows() {
    assert!(is_hud_overlay_row(true, 0, 40));
    assert!(is_hud_overlay_row(true, 39, 40));
    assert!(!is_hud_overlay_row(true, 20, 40));
    assert!(!is_hud_overlay_row(false, 0, 40));
}

#[test]
fn held_keys_toggle_and_clear() {
    let mut input = InputState::new();
    input.apply_key(MoveKey::Forward, true);
    input.apply_key(MoveKey::Left, true);
    assert!(input.held.forward && input.held.left);
    input.apply_key(MoveKey::Forward, false);
    assert!(!input.held.forward && input.held.left);
    input.clear_held();
    assert_eq!(input.held, HeldMovementKeys::new());
    input.request_quit();
    assert!(input.quit_requested);
}

#[test]
fn dispatch_arithmetic_rounds_up() {
    assert_eq!(div_ceil_u32(0, 256), 0);
    assert_eq!(div_ceil_u32(1, 256), 1);
    assert_eq!(div_ceil_u32(256, 256), 1);
    assert_eq!(div_ceil_u32(257, 256), 2);
    assert_eq!(required_block_sum_elements(0), 1);
    assert_eq!(required_block_sum_elements(256), 1);
    assert_eq!(required_block_sum_elements(257), 3);
    assert_eq!(required_block_sum_elements(65536), 257);
}
