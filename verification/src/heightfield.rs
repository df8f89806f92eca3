//! The elevation grid a generation job produces.
//!
//! A heightfield is a flat, row-major sequence of `size * size` elevation
//! samples, each a finite, non-negative single-precision value carried as
//! its bit pattern. The numeric synthesis happens outside this crate;
//! everything handed in is validated here, so a `Heightfield` value always
//! satisfies `wf`: full length and no negative, NaN or infinite cell.

use vstd::prelude::*;

use crate::fbits::{check_finite, check_nonneg, f32_is_finite, f32_is_nonneg};
use crate::spec_grid_index;

verus! {

/// Row-major grid of finite, non-negative elevation samples (bit patterns).
pub struct Heightfield {
    pub size: u32,
    pub data: Vec<u32>,
}

/// Every sample in `data` denotes a finite value that is at least zero.
pub open spec fn spec_all_valid(data: Seq<u32>) -> bool {
    forall|i: int| 0 <= i < data.len() ==> f32_is_nonneg(#[trigger] data[i]) && f32_is_finite(
        data[i],
    )
}

impl Heightfield {
    /// A heightfield holds one sample per grid cell, none of them negative,
    /// NaN or infinite.
    pub open spec fn wf(self) -> bool {
        &&& self.data@.len() == self.size * self.size
        &&& spec_all_valid(self.data@)
    }

    /// Accepts a raw sample buffer as a heightfield exactly when it has one
    /// sample per cell and every sample is finite and non-negative.
    pub fn from_bits(size: u32, data: Vec<u32>) -> (r: Option<Heightfield>)
        requires
            1 <= size,
            size * size <= usize::MAX,
        ensures
            r is Some <==> (data@.len() == size * size && spec_all_valid(data@)),
            r matches Some(h) ==> h.size == size && h.data@ == data@ && h.wf(),
    {
        if data.len() != (size as usize) * (size as usize) {
            return None;
        }
        let n: usize = data.len();
        for i in 0..n
            invariant
                n == data@.len(),
                forall|j: int| 0 <= j < i ==> f32_is_nonneg(#[trigger] data@[j]) && f32_is_finite(
                    data@[j],
                ),
        {
            if !check_nonneg(data[i]) || !check_finite(data[i]) {
                assert(!(f32_is_nonneg(data@[i as int]) && f32_is_finite(data@[i as int])));
                return None;
            }
        }
        Some(Heightfield { size, data })
    }

    /// Side length of the grid.
    pub fn side(&self) -> (s: u32)
        ensures
            s == self.size,
    {
        self.size
    }

    /// Number of cells.
    pub fn len(&self) -> (n: usize)
        ensures
            n == self.data@.len(),
    {
        self.data.len()
    }

    /// Sample of the cell at column `x`, row `z`.
    pub fn get(&self, x: u32, z: u32) -> (h: u32)
        requires
            self.wf(),
            x < self.size,
            z < self.size,
        ensures
            h == self.data@[spec_grid_index(x, z, self.size)],
            f32_is_nonneg(h),
            f32_is_finite(h),
    {
        // Reading the length binds `size * size` to a machine word, which
        // `grid_index` needs to know the flat index fits.
        let _n: usize = self.data.len();
        let i: usize = crate::grid_index(x, z, self.size);
        self.data[i]
    }

    /// No cell of a heightfield is ever negative: well-formedness carries
    /// non-negativity for every sample.
    pub proof fn lemma_cells_nonneg(self)
        requires
            self.wf(),
        ensures
            forall|i: int| 0 <= i < self.data@.len() ==> f32_is_nonneg(#[trigger] self.data@[i]),
    {
    }
}

} // verus!
