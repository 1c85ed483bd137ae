use tortuise::camera::Camera;
use tortuise::math::{Quat, Vec3};
use tortuise::metal::error::MetalRenderError;
use tortuise::metal::MetalBackend;
use tortuise::splat::{Rgb, Splat};

fn test_camera(distance: i64) -> Camera {
    Camera {
        position: Vec3 { x: 0, y: 0, z: distance },
        right: Vec3 { x: 65536, y: 0, z: 0 },
        up: Vec3 { x: 0, y: 65536, z: 0 },
        forward: Vec3 { x: 0, y: 0, z: -65536 },
        tan_half_fov: 37837,
        near: 6554,
        far: 65536000,
    }
}

fn center_red_splat() -> Splat {
    Splat {
        position: Vec3 { x: 0, y: 0, z: 0 },
        color: Rgb { r: 255, g: 0, b: 0 },
        opacity: 65536,
        scale: Vec3 { x: 32768, y: 32768, z: 32768 },
        rotation: Quat { w: 65536, x: 0, y: 0, z: 0 },
    }
}

fn seeded_splats(count: usize, seed: u64) -> Vec<Splat> {
    let mut state = seed.wrapping_mul(6364136223846793005).wrapping_add(1442695040888963407);
    let mut next = move || {
        state = state.wrapping_mul(6364136223846793005).wrapping_add(1442695040888963407);
        (state >> 33) as i64
    };
    let mut splats = Vec::with_capacity(count);
    for _ in 0..count {
        let px = next() % (2 * 65536) - 65536;
        let py = next() % (2 * 65536) - 65536;
        let pz = next() % 65536 - 32768;
        let r = 24 + (next() % 232) as u8;
        let g = 24 + (next() % 232) as u8;
        let b = 24 + (next() % 232) as u8;
        let opacity = 23000 + (next() % 39000) as u32;
        let s = 2000 + next() % 6000;
        splats.push(Splat {
            position: Vec3 { x: px, y: py, z: pz },
            color: Rgb { r, g, b },
            opacity,
            scale: Vec3 { x: s, y: s, z: s },
            rotation: Quat { w: 65536, x: 0, y: 0, z: 0 },
        });
    }
    splats
}

#[test]
fn test_metal_backend_creation() {
    let backend = MetalBackend::new(16).expect("MetalBackend::new should succeed");
    assert!(!backend.is_ready(), "backend should not be ready before upload");
}

#[test]
fn tests_test_metal_backend_creation() {
    let backend = MetalBackend::new(16).expect("MetalBackend::new should succeed");
    assert!(!backend.is_ready(), "backend should not be ready before upload");
}

#[test]
fn test_upload_splats() {
    let splats = vec![center_red_splat()];
    let mut backend = MetalBackend::new(splats.len()).expect("MetalBackend::new should succeed");
    backend.upload_splats(&splats).expect("upload_splats should succeed");
    assert!(backend.is_ready(), "backend should report ready after upload");
}

#[test]
fn upload_rejects_oversized_scene() {
    let splats = vec![center_red_splat(), center_red_splat()];
    let mut backend = MetalBackend::new(1).expect("MetalBackend::new should succeed");
    let err = backend.upload_splats(&splats).unwrap_err();
    assert_eq!(err, MetalRenderError::TooManySplats);
}

#[test]
fn render_before_upload_fails() {
    let mut backend = MetalBackend::new(4).expect("MetalBackend::new should succeed");
    let err = backend.render(&test_camera(327680), 64, 64, 0).unwrap_err();
    assert_eq!(err, MetalRenderError::NotUploaded);
}

#[test]
fn test_render_empty_scene() {
    let mut backend = MetalBackend::new(4).expect("MetalBackend::new should succeed");
    backend.upload_splats(&Vec::new()).expect("upload_splats should accept an empty scene");
    backend.render(&test_camera(327680), 64, 64, 0).expect("render should succeed");
    let fb = backend.framebuffer_slice();
    assert_eq!(fb.len(), 64 * 64);
    assert!(fb.iter().all(|&p| p == 0), "empty scene should produce a zero framebuffer");
}

#[test]
fn test_render_single_splat() {
    let splats = vec![center_red_splat()];
    let mut backend = MetalBackend::new(1).expect("MetalBackend::new should succeed");
    backend.upload_splats(&splats).expect("upload_splats should succeed");
    backend.render(&test_camera(327680), 64, 64, 1).expect("render should succeed");
    let fb = backend.framebuffer_slice();
    let mut center_red = false;
    for dy in -1i64..=1 {
        for dx in -1i64..=1 {
            let idx = ((32 + dy) * 64 + 32 + dx) as usize;
            if fb[idx] & 0xff > 0 {
                center_red = true;
            }
        }
    }
    assert!(center_red, "center neighborhood should contain red contribution");
    for &corner in &[0usize, 63, 63 * 64, 64 * 64 - 1] {
        let p = fb[corner];
        assert!(p & 0xff <= 2 && (p >> 8) & 0xff <= 2 && (p >> 16) & 0xff <= 2);
    }
}

#[test]
fn test_render_determinism() {
    let splats = seeded_splats(500, 42);
    let mut backend = MetalBackend::new(splats.len()).expect("MetalBackend::new should succeed");
    backend.upload_splats(&splats).expect("upload_splats should succeed");
    backend
        .render(&test_camera(327680), 128, 128, splats.len())
        .expect("first render should succeed");
    let reference = backend.framebuffer_slice();
    for frame in 0..9 {
        backend
            .render(&test_camera(327680), 128, 128, splats.len())
            .expect("render should succeed");
        assert_eq!(
            backend.framebuffer_slice(),
            reference,
            "frame {} differs from the reference",
            frame
        );
    }
}

#[test]
fn sort_capacity_covers_observed_overlaps() {
    let splats = seeded_splats(200, 7);
    let mut backend = MetalBackend::new(splats.len()).expect("MetalBackend::new should succeed");
    backend.upload_splats(&splats).expect("upload_splats should succeed");
    backend
        .render(&test_camera(327680), 128, 128, splats.len())
        .expect("render should succeed");
    assert!(backend.sort_capacity >= backend.previous_total_overlaps as usize);
    let reached = backend.sort_capacity;
    for _ in 0..59 {
        backend
            .render(&test_camera(327680), 128, 128, splats.len())
            .expect("render should succeed");
        assert!(2 * backend.sort_capacity + 1 >= reached);
    }
}

#[test]
fn shrink_needs_sixty_low_frames() {
    let mut backend = MetalBackend::new(4).expect("MetalBackend::new should succeed");
    backend.reallocate_sort_buffers(1024).expect("reallocating should succeed");
    for _ in 0..59 {
        backend.maybe_shrink_sort_capacity(3).expect("shrink bookkeeping should succeed");
        assert_eq!(backend.sort_capacity, 1024, "capacity must hold before sixty frames");
    }
    backend.maybe_shrink_sort_capacity(3).expect("shrink bookkeeping should succeed");
    assert_eq!(backend.sort_capacity, 512, "the sixtieth low frame halves the capacity");
}

#[test]
fn test_resize_handling() {
    let splats = vec![center_red_splat()];
    let mut backend = MetalBackend::new(1).expect("MetalBackend::new should succeed");
    backend.upload_splats(&splats).expect("upload_splats should succeed");
    backend.render(&test_camera(327680), 64, 64, 1).expect("64x64 render should succeed");
    let first: Vec<u32> = backend.framebuffer_slice();
    assert!(first.iter().any(|&p| p != 0), "first 64x64 output is empty");
    backend.render(&test_camera(327680), 256, 256, 1).expect("256x256 render should succeed");
    assert!(
        backend.framebuffer_slice().iter().any(|&p| p != 0),
        "256x256 output is empty"
    );
    backend.render(&test_camera(327680), 64, 64, 1).expect("second 64x64 render should succeed");
    assert_eq!(backend.framebuffer_slice(), first, "second 64x64 output should match the first");
}
