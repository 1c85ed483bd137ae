//! The display and control modes the frame loop cycles through.

use vstd::prelude::*;

verus! {

/// How the camera is driven.
#[derive(Clone, Copy, PartialEq, Eq, Structural, Debug)]
pub enum CameraMode {
    Free,
    Orbit,
}

impl CameraMode {
    /// The label the HUD shows for this mode.
    pub fn name(&self) -> (r: &'static str) {
        match self {
            CameraMode::Free => "FREE",
            CameraMode::Orbit => "ORBIT",
        }
    }
}

/// How the pixel buffer is turned into terminal cells.
#[derive(Clone, Copy, PartialEq, Eq, Structural, Debug)]
pub enum RenderMode {
    Halfblock,
    PointCloud,
    Matrix,
    BlockDensity,
    Braille,
    AsciiClassic,
}

impl RenderMode {
    /// The mode after this one in the cycle.
    pub fn next(self) -> (r: RenderMode)
        ensures
            r == (match self {
                RenderMode::Halfblock => RenderMode::PointCloud,
                RenderMode::PointCloud => RenderMode::Matrix,
                RenderMode::Matrix => RenderMode::BlockDensity,
                RenderMode::BlockDensity => RenderMode::Braille,
                RenderMode::Braille => RenderMode::AsciiClassic,
                RenderMode::AsciiClassic => RenderMode::Halfblock,
            }),
    {
        match self {
            RenderMode::Halfblock => RenderMode::PointCloud,
            RenderMode::PointCloud => RenderMode::Matrix,
            RenderMode::Matrix => RenderMode::BlockDensity,
            RenderMode::BlockDensity => RenderMode::Braille,
            RenderMode::Braille => RenderMode::AsciiClassic,
            RenderMode::AsciiClassic => RenderMode::Halfblock,
        }
    }

    /// The label the HUD shows for this mode.
    pub fn name(&self) -> (r: &'static str) {
        match self {
            RenderMode::Halfblock => "Halfblock",
            RenderMode::PointCloud => "PointCloud",
            RenderMode::Matrix => "Matrix",
            RenderMode::BlockDensity => "BlockDensity",
            RenderMode::Braille => "Braille",
            RenderMode::AsciiClassic => "AsciiClassic",
        }
    }
}

/// Which pipeline renders the frame.
#[derive(Clone, Copy, PartialEq, Eq, Structural, Debug)]
pub enum Backend {
    Cpu,
    Metal,
}

impl Backend {
    /// The label the HUD shows for this back-end.
    pub fn name(&self) -> (r: &'static str) {
        match self {
            Backend::Cpu => "CPU",
            Backend::Metal => "Metal",
        }
    }
}

/// Whether a terminal row is covered by the HUD overlay: the first and the
/// last row, when the HUD is shown.
pub fn is_hud_overlay_row(show_hud: bool, row: usize, term_rows: usize) -> (r: bool)
    ensures
        r == (show_hud && (row == 0 || (term_rows >= 1 && row == term_rows - 1))),
{
    show_hud && (row == 0 || (term_rows >= 1 && row == term_rows - 1))
}

} // verus!
