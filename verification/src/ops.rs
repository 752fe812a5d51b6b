//! Text placement options.
//!
//! These are configuration values only: glyph rasterization itself is an
//! outside collaborator that hands the core finished pixel sequences.

use vstd::prelude::*;

verus! {

/// Options for a text placement call.
#[derive(Debug, Clone, Copy, PartialEq, Eq, Structural)]
pub struct TextOptions {
    pub font: FontKind,
    pub v_align: VAlign,
    pub h_align: HAlign,
}

/// The fixed-cell fonts a caller can pick from.
#[derive(Debug, Clone, Copy, PartialEq, Eq, Structural)]
pub enum FontKind {
    Font6x6,
    Font6x8,
    Font6x12,
    Font8x16,
    Font12x16,
    Font24x32,
}

/// Vertical alignment of a text block within its anchor cell.
#[derive(Debug, Clone, Copy, PartialEq, Eq, Structural)]
pub enum VAlign {
    Top,
    Centre,
    Bottom,
}

/// Horizontal alignment of a text block within its anchor cell.
#[derive(Debug, Clone, Copy, PartialEq, Eq, Structural)]
pub enum HAlign {
    Left,
    Centre,
    Right,
}

impl Default for TextOptions {
    fn default() -> (r: Self)
        ensures
            r.font == FontKind::Font12x16,
            r.v_align == VAlign::Centre,
            r.h_align == HAlign::Centre,
    {
        Self { font: FontKind::Font12x16, h_align: HAlign::Centre, v_align: VAlign::Centre }
    }
}

} // verus!
