//! Rasterization core for a monochrome thermal label printer.
//!
//! A label is composed in a bit-packed in-memory framebuffer whose short
//! axis is fixed by the print head and whose long axis grows with the
//! label.  A styled module-grid overlay maps a finished scannable-code
//! grid into pixel space, and a render orchestrator owns the buffer,
//! lowers placement calls into pixel writes, and on finalize applies the
//! orientation transform and emits the device-ready packed byte matrix.

use vstd::prelude::*;

pub mod display;
pub mod geometry;
pub mod ops;
pub mod qr;
pub mod render;

verus! {

/// Typed failures surfaced by the rendering core.
#[derive(Debug, Clone, Copy, PartialEq, Eq, Structural)]
pub enum PTouchError {
    /// A pixel coordinate fell outside the drawable extent.
    RenderError,
    /// Finalize was requested twice, or a placement came after finalize.
    AlreadyFinalized,
    /// A module grid's declared side length does not match its module count.
    InvalidModuleGrid,
}

} // verus!
