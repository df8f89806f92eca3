//! Elevation-to-color lookup.
//!
//! A palette is a vertical gradient of at least 256 RGBA rows: row 255 colors
//! the lowest elevation (deep water), row 0 the highest (peaks). A cell of
//! height `h` reads row `255 - clamp(h)`, where `clamp` floors the height and
//! clamps it to `[0, 255]`.

use vstd::prelude::*;

use crate::fbits::{clamp255, f32_is_nonneg, f32_sign, spec_clamp255};

verus! {

/// One color sample, 8 bits per channel.
#[derive(Clone, Copy, PartialEq, Eq, Structural, Debug)]
pub struct Rgba {
    pub r: u8,
    pub g: u8,
    pub b: u8,
    pub a: u8,
}

/// A vertical height-to-color gradient: one RGBA sample per row, top row
/// first. Loaded once at startup and never mutated afterwards.
pub struct Palette {
    pub rows: Vec<Rgba>,
}

/// Palette row read by a cell whose height has the bit pattern `hbits`:
/// heights clamp to `[0, 255]` and the gradient is stored top row first, so
/// height 0 reads row 255 and heights of 255 and above read row 0.
pub open spec fn spec_row_index(hbits: u32) -> int {
    255 - spec_clamp255(hbits)
}

/// Color of row `y` of the built-in palette: bands of deep water, sand,
/// grassland, forest, highland and bare rock from the bottom row upward,
/// with snow above the last band.
pub open spec fn spec_default_palette_color(y: int) -> Rgba {
    if y >= 255 {
        (Rgba { r: 10, g: 10, b: 80, a: 255 })
    } else if y >= 250 {
        (Rgba { r: 150, g: 150, b: 50, a: 255 })
    } else if y >= 215 {
        (Rgba { r: 50, g: 150, b: 50, a: 255 })
    } else if y >= 175 {
        (Rgba { r: 30, g: 120, b: 30, a: 255 })
    } else if y >= 125 {
        (Rgba { r: 150, g: 75, b: 30, a: 255 })
    } else if y >= 95 {
        (Rgba { r: 130, g: 55, b: 20, a: 255 })
    } else {
        (Rgba { r: 255, g: 255, b: 255, a: 255 })
    }
}

impl Palette {
    /// A palette is usable once it has a row for every clamped height.
    pub open spec fn wf(self) -> bool {
        self.rows@.len() >= 256
    }

    /// The color stored at row `y`.
    pub fn row(&self, y: u32) -> (c: Rgba)
        requires
            self.wf(),
            y < 256,
        ensures
            c == self.rows@[y as int],
    {
        self.rows[y as usize]
    }

    /// Number of rows.
    pub fn height(&self) -> (n: usize)
        ensures
            n == self.rows@.len(),
    {
        self.rows.len()
    }

    /// Builds the fallback gradient used when no palette asset is supplied:
    /// 256 rows following `spec_default_palette_color`.
    pub fn generate() -> (p: Palette)
        ensures
            p.wf(),
            p.rows@.len() == 256,
            forall|y: int| 0 <= y < 256 ==> p.rows@[y] == spec_default_palette_color(y),
    {
        let mut rows: Vec<Rgba> = Vec::new();
        for y in 0..256u32
            invariant
                rows@.len() == y,
                forall|i: int| 0 <= i < y ==> rows@[i] == spec_default_palette_color(i),
        {
            let c: Rgba = if y >= 255 {
                Rgba { r: 10, g: 10, b: 80, a: 255 }
            } else if y >= 250 {
                Rgba { r: 150, g: 150, b: 50, a: 255 }
            } else if y >= 215 {
                Rgba { r: 50, g: 150, b: 50, a: 255 }
            } else if y >= 175 {
                Rgba { r: 30, g: 120, b: 30, a: 255 }
            } else if y >= 125 {
                Rgba { r: 150, g: 75, b: 30, a: 255 }
            } else if y >= 95 {
                Rgba { r: 130, g: 55, b: 20, a: 255 }
            } else {
                Rgba { r: 255, g: 255, b: 255, a: 255 }
            };
            rows.push(c);
        }
        Palette { rows }
    }

    /// Color for a cell of height `hbits` (a non-negative single-precision
    /// bit pattern): the row selected by `spec_row_index`.
    pub fn map_color(&self, hbits: u32) -> (c: Rgba)
        requires
            self.wf(),
            f32_is_nonneg(hbits),
        ensures
            c == self.rows@[spec_row_index(hbits)],
    {
        let clamped: u32 = clamp255(hbits);
        self.row(255 - clamped)
    }
}

/// Height 0 (bit pattern 0) reads the palette's bottom row, row 255.
pub proof fn lemma_zero_height_reads_lowest_row()
    ensures
        spec_row_index(0) == 255,
{
    crate::fbits::lemma_clamp255_zero();
}

/// A height of 255 (bit pattern `0x437f_0000`) reads the palette's top row,
/// row 0.
pub proof fn lemma_full_height_reads_highest_row()
    ensures
        spec_row_index(0x437f_0000) == 0,
{
    crate::fbits::lemma_clamp255_max();
}

/// The row index never moves toward the bottom of the gradient as the height
/// grows: for non-negative patterns (clear sign bit), whose unsigned bit
/// order is the order of the denoted values, a larger height reads an equal
/// or higher row.
pub proof fn lemma_row_index_antitone(a: u32, b: u32)
    requires
        f32_sign(a) == 0,
        f32_sign(b) == 0,
        a <= b,
    ensures
        spec_row_index(a) >= spec_row_index(b),
{
    crate::fbits::lemma_clamp255_monotone(a, b);
}

} // verus!
