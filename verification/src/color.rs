use vstd::prelude::*;

verus! {

/// An RGB color triple.
#[derive(Debug, Clone, Copy, PartialEq, Eq, Structural)]
pub struct RGB {
    pub r: u8,
    pub g: u8,
    pub b: u8,
}

/// A concrete color for one side of a cell: either an RGB value or the
/// host terminal's default view color.
#[derive(Debug, Clone, Copy, PartialEq, Eq, Structural)]
pub enum CellColor {
    Rgb(RGB),
    TerminalDefault,
}

/// Foreground and background ink for one cell.
#[derive(Debug, Clone, Copy, PartialEq, Eq, Structural)]
pub struct CellStyle {
    pub front: CellColor,
    pub back: CellColor,
}

/// The color an `(r, g, b)` triple of channel bytes names.
pub open spec fn spec_rgb_of(c: (u8, u8, u8)) -> RGB {
    RGB { r: c.0, g: c.1, b: c.2 }
}

/// The style a gradient paints with: the interpolated color in front of
/// the terminal's default background.
pub open spec fn spec_style_of(c: RGB) -> CellStyle {
    CellStyle { front: CellColor::Rgb(c), back: CellColor::TerminalDefault }
}

/// Swaps foreground and background ink, for glyphs whose partial-fill
/// polarity is defined from the far edge.
pub fn invert_color_style(cs: CellStyle) -> (r: CellStyle)
    ensures
        r == (CellStyle { front: cs.back, back: cs.front }),
{
    CellStyle { front: cs.back, back: cs.front }
}

} // verus!
