use tortuise::camera::Camera;
use tortuise::math::{Quat, Vec3};
use tortuise::pipeline::{cpu_project_and_sort, flip_scene, project_and_cull_splats};
use tortuise::raster::{rasterize_splats, resize_render_state, RenderState};
use tortuise::sort::sort_by_depth;
use tortuise::splat::{ProjectedSplat, Rgb, Splat};

fn test_camera(distance: i64) -> Camera {
    Camera {
        position: Vec3 { x: 0, y: 0, z: distance },
        right: Vec3 { x: 65536, y: 0, z: 0 },
        up: Vec3 { x: 0, y: 65536, z: 0 },
        forward: Vec3 { x: 0, y: 0, z: -65536 },
        tan_half_fov: 37837,
        near: 6554,
        far: 65536000,
    }
}

fn splat_at(x: i64, y: i64, z: i64, color: Rgb) -> Splat {
    Splat {
        position: Vec3 { x, y, z },
        color,
        opacity: 65536,
        scale: Vec3 { x: 32768, y: 32768, z: 32768 },
        rotation: Quat { w: 65536, x: 0, y: 0, z: 0 },
    }
}

fn fresh_state(width: usize, height: usize) -> RenderState {
    let mut state = RenderState {
        framebuffer: Vec::new(),
        alpha_buffer: Vec::new(),
        depth_buffer: Vec::new(),
        width: 0,
        height: 0,
    };
    resize_render_state(&mut state, width, height);
    state
}

fn cpu_render(splats: &Vec<Splat>, camera: &Camera, width: usize, height: usize) -> RenderState {
    let mut projected: Vec<ProjectedSplat> = Vec::new();
    let mut visible: usize = 0;
    cpu_project_and_sort(splats, &mut projected, camera, width, height, &mut visible);
    let mut state = fresh_state(width, height);
    rasterize_splats(&projected, &mut state, width, height);
    state
}

fn seeded_splats(count: usize, seed: u64) -> Vec<Splat> {
    let mut state = seed.wrapping_mul(6364136223846793005).wrapping_add(1442695040888963407);
    let mut next = move || {
        state = state.wrapping_mul(6364136223846793005).wrapping_add(1442695040888963407);
        (state >> 33) as i64
    };
    let mut splats = Vec::with_capacity(count);
    for _ in 0..count {
        let px = next() % (2 * 65536) - 65536;
        let py = next() % (2 * 65536) - 65536;
        let pz = next() % 65536 - 32768;
        let r = 24 + (next() % 232) as u8;
        let g = 24 + (next() % 232) as u8;
        let b = 24 + (next() % 232) as u8;
        let opacity = 23000 + (next() % 39000) as u32;
        let s = 2000 + next() % 6000;
        splats.push(Splat {
            position: Vec3 { x: px, y: py, z: pz },
            color: Rgb { r, g, b },
            opacity,
            scale: Vec3 { x: s, y: s, z: s },
            rotation: Quat { w: 65536, x: 0, y: 0, z: 0 },
        });
    }
    splats
}

#[test]
fn empty_scene_leaves_pixels_black() {
    let state = cpu_render(&Vec::new(), &test_camera(327680), 64, 64);
    assert!(state.framebuffer.iter().all(|c| c.r == 0 && c.g == 0 && c.b == 0));
    assert!(state.alpha_buffer.iter().all(|&a| a == 0));
}

#[test]
fn single_center_splat_is_red_at_center() {
    let splats = vec![splat_at(0, 0, 0, Rgb { r: 255, g: 0, b: 0 })];
    let state = cpu_render(&splats, &test_camera(327680), 64, 64);
    let mut center_red = false;
    for dy in -1i64..=1 {
        for dx in -1i64..=1 {
            let idx = ((32 + dy) * 64 + 32 + dx) as usize;
            if state.framebuffer[idx].r > 0 {
                center_red = true;
            }
        }
    }
    assert!(center_red, "center neighborhood should contain red contribution");
    for &corner in &[0usize, 63, 63 * 64, 64 * 64 - 1] {
        let c = state.framebuffer[corner];
        assert!(c.r <= 2 && c.g <= 2 && c.b <= 2, "corner should stay near black");
    }
}

#[test]
fn front_splat_occludes_back_splat() {
    let splats = vec![
        splat_at(0, 0, 0, Rgb { r: 255, g: 0, b: 0 }),
        splat_at(0, 0, -32768, Rgb { r: 0, g: 0, b: 255 }),
    ];
    let state = cpu_render(&splats, &test_camera(327680), 64, 64);
    let center = state.framebuffer[32 * 64 + 32];
    assert!(center.r >= 200, "front red splat should dominate, got r={}", center.r);
    assert!(center.b <= 40, "occluded blue splat should barely show, got b={}", center.b);
}

#[test]
fn flip_y_moves_splat_below_center() {
    let mut splats = vec![splat_at(0, 65536, 0, Rgb { r: 0, g: 255, b: 0 })];
    flip_scene(&mut splats, true, false);
    assert_eq!(splats[0].position.y, -65536);
    let mut projected: Vec<ProjectedSplat> = Vec::new();
    let mut visible: usize = 0;
    project_and_cull_splats(&splats, &mut projected, &test_camera(327680), 64, 64, &mut visible);
    assert_eq!(visible, 1);
    assert!(
        projected[0].screen_y > 32 * 65536,
        "a flipped splat above the origin should land below the image center"
    );
}

#[test]
fn on_axis_splat_projects_to_center_and_camera_distance() {
    let splats = vec![splat_at(0, 0, 0, Rgb { r: 255, g: 255, b: 255 })];
    let mut projected: Vec<ProjectedSplat> = Vec::new();
    let mut visible: usize = 0;
    project_and_cull_splats(&splats, &mut projected, &test_camera(327680), 64, 64, &mut visible);
    assert_eq!(visible, 1);
    assert_eq!(projected[0].screen_x, 32 * 65536);
    assert_eq!(projected[0].screen_y, 32 * 65536);
    assert_eq!(projected[0].depth, 327680);
}

#[test]
fn radii_scale_inversely_with_distance() {
    let splats = vec![splat_at(0, 0, 0, Rgb { r: 255, g: 255, b: 255 })];
    let mut near_proj: Vec<ProjectedSplat> = Vec::new();
    let mut far_proj: Vec<ProjectedSplat> = Vec::new();
    let mut visible: usize = 0;
    project_and_cull_splats(&splats, &mut near_proj, &test_camera(327680), 256, 256, &mut visible);
    project_and_cull_splats(&splats, &mut far_proj, &test_camera(655360), 256, 256, &mut visible);
    let rn = near_proj[0].radius_x as f64;
    let rf = far_proj[0].radius_x as f64;
    let ratio = rn / rf;
    assert!(
        (ratio - 2.0).abs() < 0.02,
        "radius should halve when the distance doubles, ratio {}",
        ratio
    );
}

#[test]
fn depth_sort_orders_splats_front_to_back() {
    let splats = seeded_splats(100, 3);
    let mut projected: Vec<ProjectedSplat> = Vec::new();
    let mut visible: usize = 0;
    project_and_cull_splats(&splats, &mut projected, &test_camera(327680), 64, 64, &mut visible);
    sort_by_depth(&mut projected);
    for i in 1..projected.len() {
        assert!(projected[i - 1].depth <= projected[i].depth);
    }
}

#[test]
fn test_render_matches_cpu() {
    let splats = seeded_splats(50, 42);
    let camera = test_camera(327680);
    let cpu = cpu_render(&splats, &camera, 128, 128);
    let mut backend =
        tortuise::metal::MetalBackend::new(splats.len()).expect("MetalBackend::new should succeed");
    backend.upload_splats(&splats).expect("upload_splats should succeed");
    backend.render(&camera, 128, 128, splats.len()).expect("render should succeed");
    let gpu = backend.framebuffer_slice();
    let mut over_bound = 0usize;
    for idx in 0..128 * 128 {
        let c = cpu.framebuffer[idx];
        let p = gpu[idx];
        let (r, g, b) = ((p & 0xff) as i32, ((p >> 8) & 0xff) as i32, ((p >> 16) & 0xff) as i32);
        let dr = (c.r as i32 - r).abs();
        let dg = (c.g as i32 - g).abs();
        let db = (c.b as i32 - b).abs();
        if dr > 8 || dg > 8 || db > 8 {
            over_bound += 1;
        }
    }
    assert!(
        over_bound * 5 <= 128 * 128,
        "at most a fifth of the pixels may differ by more than 8 per channel, got {}",
        over_bound
    );
}

#[test]
fn alpha_stays_monotone_and_bounded() {
    let splats = seeded_splats(50, 9);
    let camera = test_camera(327680);
    let mut projected: Vec<ProjectedSplat> = Vec::new();
    let mut visible: usize = 0;
    cpu_project_and_sort(&splats, &mut projected, &camera, 64, 64, &mut visible);
    let mut state = fresh_state(64, 64);
    let mut last_alpha = vec![0u32; 64 * 64];
    for k in 0..projected.len() {
        let step = vec![projected[k]];
        rasterize_splats(&step, &mut state, 64, 64);
        for idx in 0..64 * 64 {
            assert!(state.alpha_buffer[idx] >= last_alpha[idx], "alpha must not decrease");
            assert!(state.alpha_buffer[idx] <= 65536, "alpha must stay at most one");
            last_alpha[idx] = state.alpha_buffer[idx];
        }
    }
}
