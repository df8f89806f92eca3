//! The generated landmass for one seed: a heightfield coupled with the
//! color image derived from it through a palette.

use vstd::prelude::*;

use crate::color_image::ColorImage;
use crate::heightfield::Heightfield;
use crate::palette::{Palette, spec_default_palette_color, spec_row_index};

verus! {

/// One seed's terrain data: the elevation grid, the palette it is colored
/// with, and the color image that pairs them cell for cell.
pub struct Landmass {
    pub seed: u64,
    pub size: u32,
    pub data: Heightfield,
    pub img: ColorImage,
    pub palette: Palette,
}

impl Landmass {
    /// The heightfield fills the grid, and the image colors exactly it:
    /// pixel `i` is the palette row selected by the height of cell `i`.
    pub open spec fn wf(self) -> bool {
        &&& self.data.wf()
        &&& self.data.size == self.size
        &&& self.palette.wf()
        &&& self.img.size == self.size
        &&& self.img.wf()
        &&& self.img.pixels@.len() == self.data.data@.len()
        &&& forall|i: int| 0 <= i < self.data.data@.len() ==> self.img.pixels@[i]
            == self.palette.rows@[spec_row_index(#[trigger] self.data.data@[i])]
    }

    /// Couples a generated heightfield with a palette, coloring every cell.
    pub fn with_palette(size: u32, seed: u64, palette: Palette, data: Heightfield) -> (lm:
        Landmass)
        requires
            data.wf(),
            data.size == size,
            palette.wf(),
        ensures
            lm.wf(),
            lm.seed == seed,
            lm.size == size,
            lm.data == data,
            lm.palette == palette,
    {
        let img: ColorImage = ColorImage::from_heightfield(&data, &palette);
        Landmass { seed, size, data, img, palette }
    }

    /// Couples a generated heightfield with the built-in fallback palette:
    /// the resulting palette is exactly the generated default gradient.
    pub fn new(size: u32, seed: u64, data: Heightfield) -> (lm: Landmass)
        requires
            data.wf(),
            data.size == size,
        ensures
            lm.wf(),
            lm.seed == seed,
            lm.size == size,
            lm.data == data,
            lm.palette.rows@.len() == 256,
            forall|y: int| 0 <= y < 256 ==> lm.palette.rows@[y] == spec_default_palette_color(y),
    {
        Landmass::with_palette(size, seed, Palette::generate(), data)
    }

    /// Replaces the heightfield with a regenerated one and recolors the
    /// image to match; seed, size and palette stay as they were.
    pub fn update_map(&mut self, data: Heightfield)
        requires
            old(self).palette.wf(),
            data.wf(),
            data.size == old(self).size,
        ensures
            final(self).wf(),
            final(self).data == data,
            final(self).seed == old(self).seed,
            final(self).size == old(self).size,
            final(self).palette == old(self).palette,
    {
        self.img = ColorImage::from_heightfield(&data, &self.palette);
        self.data = data;
    }
}

} // verus!
