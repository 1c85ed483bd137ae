//! Terminal-native 3D Gaussian splat renderer.
//!
//! The pipeline projects anisotropic 3D Gaussians into screen-space ellipses,
//! culls them, sorts them by view depth, and alpha-composites them front to
//! back into a pixel buffer.  Two back-ends share the same mathematics: a
//! straightforward per-splat rasterizer and a tile-based back-end that bins
//! splats into 16x16 tiles, radix-sorts packed (tile, depth, tie) keys, and
//! blends each tile's splats in key order.
//!
//! All geometry is carried in signed 16.16 fixed point, so every stage of the
//! pipeline is deterministic, integer-only code with proved contracts.
//! Conversion from floating-point scene data to fixed point happens outside
//! this crate.

pub mod camera;
pub mod cells;
pub mod color;
pub mod dot_splat;
pub mod fp;
pub mod input;
pub mod keys;
pub mod math;
pub mod metal;
pub mod modes;
pub mod pipeline;
pub mod ply;
pub mod radix;
pub mod raster;
pub mod scan;
pub mod sort;
pub mod splat;
pub mod tiles;

pub use fp::FP;
