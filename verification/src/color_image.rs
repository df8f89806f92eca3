//! The color image a generation job derives from its heightfield.
//!
//! Each grid cell is colored by looking its height up in the palette, in the
//! same row-major order as the heightfield; the result is handed onward as
//! an RGBA texture, 8 bits per channel, alpha unused downstream.

use vstd::prelude::*;

use crate::heightfield::Heightfield;
use crate::palette::{Palette, Rgba, spec_row_index};

verus! {

/// Row-major `size * size` RGBA image.
pub struct ColorImage {
    pub size: u32,
    pub pixels: Vec<Rgba>,
}

/// `bytes` lays pixel `i` of `pixels` out at offset `4 * i`, channel order
/// red, green, blue, alpha.
pub open spec fn spec_pixel_bytes_at(bytes: Seq<u8>, pixels: Seq<Rgba>, i: int) -> bool {
    &&& bytes[4 * i] == pixels[i].r
    &&& bytes[4 * i + 1] == pixels[i].g
    &&& bytes[4 * i + 2] == pixels[i].b
    &&& bytes[4 * i + 3] == pixels[i].a
}

/// `img` is the coloring of `hf` through `palette`: one pixel per cell,
/// each the palette row selected by that cell's height.
pub open spec fn spec_colored_by(img: ColorImage, hf: Heightfield, palette: Palette) -> bool {
    &&& img.size == hf.size
    &&& img.pixels@.len() == hf.data@.len()
    &&& forall|i: int| 0 <= i < hf.data@.len()
        ==> img.pixels@[i] == palette.rows@[spec_row_index(#[trigger] hf.data@[i])]
}

/// Coloring is a function of its inputs: two images that each color the
/// same heightfield through the same palette are equal pixel for pixel, so
/// running a generation job twice yields the same texture.
pub proof fn lemma_coloring_deterministic(
    a: ColorImage,
    b: ColorImage,
    hf: Heightfield,
    palette: Palette,
)
    requires
        spec_colored_by(a, hf, palette),
        spec_colored_by(b, hf, palette),
    ensures
        a.pixels@ =~= b.pixels@,
{
    assert forall|i: int| 0 <= i < a.pixels@.len() implies a.pixels@[i] == b.pixels@[i] by {
        assert(a.pixels@[i] == palette.rows@[spec_row_index(hf.data@[i])]);
    }
}

impl ColorImage {
    /// A color image holds one pixel per grid cell.
    pub open spec fn wf(self) -> bool {
        self.pixels@.len() == self.size * self.size
    }

    /// Colors every cell of `hf` by palette lookup: pixel `i` is the
    /// palette row selected by the height of cell `i`.
    pub fn from_heightfield(hf: &Heightfield, palette: &Palette) -> (img: ColorImage)
        requires
            hf.wf(),
            palette.wf(),
        ensures
            img.size == hf.size,
            img.wf(),
            img.pixels@.len() == hf.data@.len(),
            forall|i: int| 0 <= i < hf.data@.len()
                ==> img.pixels@[i] == palette.rows@[spec_row_index(#[trigger] hf.data@[i])],
            spec_colored_by(img, *hf, *palette),
    {
        let n: usize = hf.len();
        let mut pixels: Vec<Rgba> = Vec::new();
        for i in 0..n
            invariant
                n == hf.data@.len(),
                hf.wf(),
                palette.wf(),
                pixels@.len() == i,
                forall|j: int| 0 <= j < i
                    ==> pixels@[j] == palette.rows@[spec_row_index(#[trigger] hf.data@[j])],
        {
            let h: u32 = hf.data[i];
            pixels.push(palette.map_color(h));
        }
        ColorImage { size: hf.size, pixels }
    }

    /// Number of pixels.
    pub fn len(&self) -> (n: usize)
        ensures
            n == self.pixels@.len(),
    {
        self.pixels.len()
    }

    /// Pixel at index `i`.
    pub fn pixel(&self, i: usize) -> (c: Rgba)
        requires
            i < self.pixels@.len(),
        ensures
            c == self.pixels@[i as int],
    {
        self.pixels[i]
    }

    /// Flattens the image to the raw byte layout a texture upload takes:
    /// four bytes per pixel, red first, row-major.
    pub fn to_rgba_bytes(&self) -> (bytes: Vec<u8>)
        requires
            self.pixels@.len() * 4 <= usize::MAX,
        ensures
            bytes@.len() == 4 * self.pixels@.len(),
            forall|i: int| 0 <= i < self.pixels@.len() ==> #[trigger] spec_pixel_bytes_at(
                bytes@,
                self.pixels@,
                i,
            ),
    {
        let n: usize = self.pixels.len();
        let mut bytes: Vec<u8> = Vec::new();
        for i in 0..n
            invariant
                n == self.pixels@.len(),
                n * 4 <= usize::MAX,
                bytes@.len() == 4 * i,
                forall|j: int| 0 <= j < i ==> #[trigger] spec_pixel_bytes_at(
                    bytes@,
                    self.pixels@,
                    j,
                ),
        {
            let p: Rgba = self.pixels[i];
            let ghost before = bytes@;
            bytes.push(p.r);
            bytes.push(p.g);
            bytes.push(p.b);
            bytes.push(p.a);
            proof {
                assert forall|j: int| 0 <= j < i + 1 implies #[trigger] spec_pixel_bytes_at(
                    bytes@,
                    self.pixels@,
                    j,
                ) by {
                    if j < i {
                        assert(spec_pixel_bytes_at(before, self.pixels@, j));
                        assert(bytes@[4 * j] == before[4 * j]);
                        assert(bytes@[4 * j + 1] == before[4 * j + 1]);
                        assert(bytes@[4 * j + 2] == before[4 * j + 2]);
                        assert(bytes@[4 * j + 3] == before[4 * j + 3]);
                    }
                }
            }
        }
        bytes
    }
}

} // verus!
