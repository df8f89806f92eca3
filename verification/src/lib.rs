//! Procedural terrain generation core: a heightfield synthesised from a
//! numeric seed, a palette lookup that colors each cell by elevation, a
//! triangulated grid mesh, and a scheduler that tracks asynchronous
//! generation jobs from spawn to materialization.
//!
//! Elevation samples are IEEE-754 single-precision values; this crate stores
//! and reasons about them through their bit patterns (`u32`), reading sign,
//! exponent and fraction with integer arithmetic. The floating-point
//! synthesis itself (noise sampling and vertex arithmetic) lives with the
//! embedding application; everything handed back across that boundary is
//! validated here against the invariants stated in the types below.

use vstd::prelude::*;

pub mod color_image;
pub mod fbits;
pub mod heightfield;
pub mod landmass;
pub mod mesh;
pub mod palette;
pub mod scheduler;

verus! {

/// Grid side length used when no other size is requested.
pub const DEFAULT_SIZE: u32 = 512;

/// Seed for the terrain shown at startup.
pub const DEFAULT_SEED: u64 = 0x44d5afba2c391c8a;

/// Flat row-major cell index of grid position `(x, z)`.
pub open spec fn spec_grid_index(x: u32, z: u32, size: u32) -> int {
    x + z * size
}

/// Row-major cell index of `(x, z)` in a `size`-wide grid.
pub fn grid_index(x: u32, z: u32, size: u32) -> (i: usize)
    requires
        x < size,
        z < size,
        size * size <= usize::MAX,
    ensures
        i == spec_grid_index(x, z, size),
        i < size * size,
{
    proof {
        assert(x + z * size < size * size) by (nonlinear_arith)
            requires x < size && z < size;
    }
    x as usize + z as usize * size as usize
}

} // verus!
