//! Externally supplied styling: the glyph-width oracle, wrap policy,
//! alignment, and the rectangle the text must fit into.
//!
//! The glyph-width oracle is modelled as a lookup table from character
//! code points to advance widths, already specialised to the font size
//! in use; this keeps the oracle deterministic, as the engine requires.

use vstd::prelude::*;

verus! {

/// The way in which text is wrapped at the end of a line.
#[derive(Clone, Copy, PartialEq, Eq, Structural, Debug)]
pub enum Wrap {
    /// Break lines only at whitespace boundaries, falling back to a
    /// mid-token break when a single token exceeds the width budget.
    Whitespace,
    /// Break lines between any two characters once the width budget is
    /// exceeded.
    Character,
}

/// Alignment of a span within an extent (used on both axes).
#[derive(Clone, Copy, PartialEq, Eq, Structural, Debug)]
pub enum Align {
    /// Flush with the start (left / top) edge.
    Start,
    /// Centred within the extent.
    Middle,
    /// Flush with the end (right / bottom) edge.
    End,
}

/// The glyph-width oracle: advance width of each character at the
/// current font size, as plain integers.
///
/// Characters whose code point falls inside the table use their table
/// entry; all others use `default_width`.
pub struct GlyphWidths {
    /// Advance widths indexed by character code point.
    pub widths: Vec<u32>,
    /// Advance width of every character not covered by the table.
    pub default_width: u32,
}

impl GlyphWidths {
    /// Advance width of one character.
    pub open spec fn width(&self, c: char) -> u32 {
        if (c as int) < self.widths@.len() {
            self.widths@[c as int]
        } else {
            self.default_width
        }
    }

    /// Look the advance width of `c` up in the table.
    pub fn glyph_width(&self, c: char) -> (w: u32)
        ensures
            w == self.width(c),
    {
        let i = c as usize;
        if i < self.widths.len() {
            self.widths[i]
        } else {
            self.default_width
        }
    }
}

/// The rectangle the text must fit into, in integer screen coordinates
/// with `y` growing downwards. `w` is the width budget given to the
/// line layout engine; `h` is the vertical budget enforced on insertion.
#[derive(Clone, Copy, PartialEq, Eq, Structural, Debug)]
pub struct TextArea {
    /// Left edge.
    pub x: u32,
    /// Top edge.
    pub y: u32,
    /// Width budget.
    pub w: u32,
    /// Height budget.
    pub h: u64,
}

/// Everything the host supplies for one update pass: the glyph-width
/// oracle and the style parameters. The engine owns none of it.
pub struct Params {
    /// The glyph-width oracle at the current font size.
    pub glyphs: GlyphWidths,
    /// Font size: the height of one rendered line.
    pub font_size: u32,
    /// Vertical space between two consecutive lines.
    pub line_spacing: u32,
    /// The wrap policy.
    pub wrap: Wrap,
    /// Horizontal alignment of each line within the area.
    pub x_align: Align,
    /// Vertical alignment of the block of lines within the area.
    pub y_align: Align,
    /// The rectangle the text must fit into.
    pub area: TextArea,
}

} // verus!
