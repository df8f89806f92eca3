//! Triangulated grid mesh built over a heightfield.
//!
//! A mesh over a `size`-wide grid has one vertex per cell — `size * size`
//! positions, unit normals and UV pairs — and two triangles per interior
//! cell, `6 * (size - 1)^2` indices in all. This module owns the
//! combinatorial side: the exact triangle index stream with its winding, and
//! the choice of which face cells contribute to each vertex normal. The
//! per-component floating-point arithmetic (vertex scaling, cross products,
//! normalization) happens outside; its results come back as bit patterns,
//! and `TerrainMesh::assemble` validates what the mesh invariant demands of
//! them: the buffer counts, every UV component in the unit interval, and
//! every normal of unit length to within the stated tolerance. Positions
//! are carried through unchecked — no invariant is declared for them.

use vstd::prelude::*;

use vstd::arithmetic::div_mod::lemma_fundamental_div_mod_converse;

use crate::fbits::{check_in_unit, check_unit_vec3, f32_in_unit, spec_unit_vec3};

verus! {

/// One vertex attribute of three single-precision components, carried as
/// bit patterns.
#[derive(Clone, Copy, PartialEq, Eq, Structural, Debug)]
pub struct Vec3Bits {
    pub x: u32,
    pub y: u32,
    pub z: u32,
}

/// One texture coordinate pair, carried as bit patterns.
#[derive(Clone, Copy, PartialEq, Eq, Structural, Debug)]
pub struct UvBits {
    pub u: u32,
    pub v: u32,
}

/// Corner `k` of the two triangles of the cell whose lower corner is
/// `(x, z)`. With `v1 v2` the near row and `v3 v4` the far row of the cell,
/// the triangles are `(v1, v4, v2)` and `(v1, v3, v4)`. This winding is
/// convention-dependent: it assumes a right-handed renderer with `+y` up
/// that culls clockwise faces, so these corner orders read counter-clockwise
/// from above and the triangles face upward; a consumer with the opposite
/// convention must flip them.
pub open spec fn spec_cell_corner(size: u32, x: int, z: int, k: int) -> int {
    let v1 = x + z * size;
    let v2 = v1 + 1;
    let v3 = x + (z + 1) * size;
    let v4 = v3 + 1;
    if k == 0 {
        v1
    } else if k == 1 {
        v4
    } else if k == 2 {
        v2
    } else if k == 3 {
        v1
    } else if k == 4 {
        v3
    } else {
        v4
    }
}

/// Entry `j` of the triangle index stream: cells are walked row-major over
/// the `(size - 1) x (size - 1)` face grid, six entries per cell.
pub open spec fn spec_tri_index(size: u32, j: int) -> int {
    let c = j / 6;
    let x = c % ((size - 1) as int);
    let z = c / ((size - 1) as int);
    spec_cell_corner(size, x, z, j % 6)
}

/// Builds the triangle index stream for a `size`-wide grid: six entries per
/// face cell, row-major, following `spec_tri_index`.
pub fn gen_triangles(size: u32) -> (out: Vec<u32>)
    requires
        2 <= size,
        size * size <= u32::MAX + 1,
        6 * ((size - 1) * (size - 1)) <= usize::MAX,
    ensures
        out@.len() == 6 * ((size - 1) * (size - 1)),
        forall|j: int| 0 <= j < out@.len() ==> out@[j] == spec_tri_index(size, j),
        forall|j: int| 0 <= j < out@.len() ==> out@[j] < size * size,
{
    let s1: u32 = size - 1;
    let mut out: Vec<u32> = Vec::new();
    for z in 0..s1
        invariant
            s1 == size - 1,
            2 <= size,
            size * size <= u32::MAX + 1,
            6 * ((size - 1) * (size - 1)) <= usize::MAX,
            out@.len() == 6 * (z * s1),
            forall|j: int| 0 <= j < out@.len() ==> out@[j] == spec_tri_index(size, j),
            forall|j: int| 0 <= j < out@.len() ==> out@[j] < size * size,
    {
        proof {
            assert((z + 1) * s1 <= s1 * s1 && (z + 1) * s1 == z * s1 + s1) by (nonlinear_arith)
                requires z < s1;
        }
        for x in 0..s1
            invariant
                s1 == size - 1,
                2 <= size,
                z < s1,
                size * size <= u32::MAX + 1,
                6 * ((size - 1) * (size - 1)) <= usize::MAX,
                out@.len() == 6 * (z * s1 + x),
                z * s1 + s1 <= s1 * s1,
                forall|j: int| 0 <= j < out@.len() ==> out@[j] == spec_tri_index(size, j),
                forall|j: int| 0 <= j < out@.len() ==> out@[j] < size * size,
        {
            proof {
                assert(x + 1 + (z + 1) * size < size * size && z * size + size == (z + 1) * size
                    && z * s1 + x < s1 * s1 && 6 * (z * s1 + x) + 6 <= 6 * (s1 * s1))
                    by (nonlinear_arith)
                    requires x < s1 && z < s1 && s1 == size - 1 && 2 <= size;
            }
            let v1: u32 = x + z * size;
            let v2: u32 = v1 + 1;
            let v3: u32 = x + (z + 1) * size;
            let v4: u32 = v3 + 1;
            let ghost before = out@;
            out.push(v1);
            out.push(v4);
            out.push(v2);
            out.push(v1);
            out.push(v3);
            out.push(v4);
            proof {
                let c: int = z * s1 + x;
                lemma_fundamental_div_mod_converse(c, s1 as int, z as int, x as int);
                assert forall|j: int| 6 * c <= j < 6 * c + 6 implies out@[j] == spec_tri_index(
                    size,
                    j,
                ) && out@[j] < size * size by {
                    lemma_fundamental_div_mod_converse(j, 6, c, j - 6 * c);
                }
                assert forall|j: int| 0 <= j < 6 * c implies out@[j] == spec_tri_index(size, j)
                    && out@[j] < size * size by {
                    assert(out@[j] == before[j]);
                }
            }
        }
    }
    proof {
        assert(s1 * s1 == ((size - 1) * (size - 1))) by (nonlinear_arith)
            requires s1 == size - 1;
    }
    out
}

/// The face cells whose (area-weighted) face normals are summed for the
/// vertex at `(x, z)`: its own cell and the ones behind and beside it, in
/// the fixed accumulation order — `(x, z)`, `(x-1, z-1)`, `(x, z-1)`,
/// `(x-1, z)` — each present only where it exists on the face grid.
pub open spec fn spec_adjacent_cells(x: u32, z: u32, size: u32) -> Seq<(u32, u32)> {
    let a: Seq<(u32, u32)> = if x < size - 1 && z < size - 1 {
        seq![(x, z)]
    } else {
        Seq::empty()
    };
    let b: Seq<(u32, u32)> = if x > 0 && z > 0 {
        seq![(((x - 1) as u32), ((z - 1) as u32))]
    } else {
        Seq::empty()
    };
    let c: Seq<(u32, u32)> = if z > 0 && x < size - 1 {
        seq![((x, ((z - 1) as u32)))]
    } else {
        Seq::empty()
    };
    let d: Seq<(u32, u32)> = if x > 0 && z < size - 1 {
        seq![((((x - 1) as u32), z))]
    } else {
        Seq::empty()
    };
    a + b + c + d
}

/// Lists the face cells adjacent to the vertex at `(x, z)`, in the order
/// their face normals are accumulated. A vertex always has at least one
/// adjacent cell (a corner) and at most four (an interior vertex).
pub fn vertex_adjacent_cells(x: u32, z: u32, size: u32) -> (cells: Vec<(u32, u32)>)
    requires
        2 <= size,
        x < size,
        z < size,
    ensures
        cells@ == spec_adjacent_cells(x, z, size),
        forall|k: int| 0 <= k < cells@.len() ==> (#[trigger] cells@[k]).0 < size - 1
            && cells@[k].1 < size - 1,
        1 <= cells@.len() <= 4,
{
    let mut cells: Vec<(u32, u32)> = Vec::new();
    if x < size - 1 && z < size - 1 {
        cells.push((x, z));
    }
    if x > 0 && z > 0 {
        cells.push((x - 1, z - 1));
    }
    if z > 0 && x < size - 1 {
        cells.push((x, z - 1));
    }
    if x > 0 && z < size - 1 {
        cells.push((x - 1, z));
    }
    proof {
        assert(cells@ =~= spec_adjacent_cells(x, z, size));
    }
    cells
}

/// The triangle index stream is a function of the grid size alone: two
/// streams that both follow `spec_tri_index` for the same size are equal
/// entry for entry, so building a mesh twice triangulates it identically.
pub proof fn lemma_triangles_deterministic(a: Seq<u32>, b: Seq<u32>, size: u32)
    requires
        a.len() == 6 * ((size - 1) * (size - 1)),
        b.len() == a.len(),
        forall|j: int| 0 <= j < a.len() ==> a[j] == spec_tri_index(size, j),
        forall|j: int| 0 <= j < b.len() ==> b[j] == spec_tri_index(size, j),
    ensures
        a =~= b,
{
    assert forall|j: int| 0 <= j < a.len() implies a[j] == b[j] by {
        assert(a[j] == spec_tri_index(size, j));
    }
}

/// Normal `i` of the buffer passes the unit-length check: finite
/// components whose squared length is within the tolerance of 1.
pub open spec fn spec_normal_unit_at(normals: Seq<Vec3Bits>, i: int) -> bool {
    spec_unit_vec3(normals[i].x, normals[i].y, normals[i].z)
}

/// A complete terrain mesh: per-vertex positions, normals and UV pairs (as
/// single-precision bit patterns) and the triangle index stream.
pub struct TerrainMesh {
    pub size: u32,
    pub positions: Vec<Vec3Bits>,
    pub normals: Vec<Vec3Bits>,
    pub uvs: Vec<UvBits>,
    pub indices: Vec<u32>,
}

impl TerrainMesh {
    /// A mesh over a `size`-wide grid carries one position, normal and UV
    /// pair per vertex and six indices per face cell; every index points at
    /// a vertex and follows the fixed triangulation; every UV component
    /// lies in `[0, 1]`; every normal has unit length to within the stated
    /// tolerance (the degenerate fallback, the exact up-vector, included).
    pub open spec fn wf(self) -> bool {
        &&& 2 <= self.size
        &&& self.positions@.len() == self.size * self.size
        &&& self.normals@.len() == self.size * self.size
        &&& self.uvs@.len() == self.size * self.size
        &&& self.indices@.len() == 6 * ((self.size - 1) * (self.size - 1))
        &&& forall|j: int| 0 <= j < self.indices@.len() ==> #[trigger] self.indices@[j]
            < self.size * self.size
        &&& forall|j: int| 0 <= j < self.indices@.len() ==> #[trigger] self.indices@[j]
            == spec_tri_index(self.size, j)
        &&& forall|i: int| 0 <= i < self.uvs@.len() ==> f32_in_unit(
            (#[trigger] self.uvs@[i]).u,
        ) && f32_in_unit(self.uvs@[i].v)
        &&& forall|i: int| 0 <= i < self.normals@.len() ==> #[trigger] spec_normal_unit_at(
            self.normals@,
            i,
        )
    }

    /// Accepts per-vertex attributes as a mesh exactly when each buffer has
    /// one entry per vertex, every UV component lies in `[0, 1]` and every
    /// normal passes the unit-length check; the triangle indices are built
    /// here, never taken from outside.
    pub fn assemble(size: u32, positions: Vec<Vec3Bits>, normals: Vec<Vec3Bits>, uvs: Vec<UvBits>)
        -> (r: Option<TerrainMesh>)
        requires
            2 <= size,
            size * size <= usize::MAX,
            size * size <= u32::MAX + 1,
            6 * ((size - 1) * (size - 1)) <= usize::MAX,
        ensures
            r is Some <==> (positions@.len() == size * size && normals@.len() == size * size
                && uvs@.len() == size * size && (forall|i: int|
                0 <= i < uvs@.len() ==> f32_in_unit((#[trigger] uvs@[i]).u) && f32_in_unit(
                    uvs@[i].v,
                )) && (forall|i: int|
                0 <= i < normals@.len() ==> #[trigger] spec_normal_unit_at(normals@, i))),
            r matches Some(m) ==> m.wf() && m.size == size && m.positions@ == positions@
                && m.normals@ == normals@ && m.uvs@ == uvs@,
    {
        let n: usize = (size as usize) * (size as usize);
        if positions.len() != n || normals.len() != n || uvs.len() != n {
            return None;
        }
        for i in 0..n
            invariant
                n == uvs@.len(),
                forall|j: int| 0 <= j < i ==> f32_in_unit((#[trigger] uvs@[j]).u) && f32_in_unit(
                    uvs@[j].v,
                ),
        {
            let uv: UvBits = uvs[i];
            if !check_in_unit(uv.u) || !check_in_unit(uv.v) {
                assert(!f32_in_unit(uvs@[i as int].u) || !f32_in_unit(uvs@[i as int].v));
                return None;
            }
        }
        for i in 0..n
            invariant
                n == normals@.len(),
                forall|j: int| 0 <= j < i ==> #[trigger] spec_normal_unit_at(normals@, j),
        {
            let nv: Vec3Bits = normals[i];
            if !check_unit_vec3(nv.x, nv.y, nv.z) {
                assert(!spec_normal_unit_at(normals@, i as int));
                return None;
            }
        }
        let indices: Vec<u32> = gen_triangles(size);
        Some(TerrainMesh { size, positions, normals, uvs, indices })
    }

    /// Sizing of a well-formed mesh: vertex attribute counts are the square
    /// of the grid side, and the index count is six times the square of one
    /// less — two triangles of three corners per face cell.
    pub proof fn lemma_sizing(self)
        requires
            self.wf(),
        ensures
            self.positions@.len() == self.size * self.size,
            self.normals@.len() == self.size * self.size,
            self.uvs@.len() == self.size * self.size,
            self.indices@.len() == 6 * ((self.size - 1) * (self.size - 1)),
    {
    }

    /// Every UV component of a well-formed mesh lies in the unit interval.
    pub proof fn lemma_uvs_in_unit(self)
        requires
            self.wf(),
        ensures
            forall|i: int| 0 <= i < self.uvs@.len() ==> f32_in_unit((#[trigger] self.uvs@[i]).u)
                && f32_in_unit(self.uvs@[i].v),
    {
    }

    /// Every normal of a well-formed mesh is a unit vector to within the
    /// stated tolerance; `fbits::lemma_up_vector_is_unit` shows the
    /// degenerate fallback meets the same bound.
    pub proof fn lemma_normals_unit(self)
        requires
            self.wf(),
        ensures
            forall|i: int| 0 <= i < self.normals@.len() ==> #[trigger] spec_normal_unit_at(
                self.normals@,
                i,
            ),
    {
    }
}

} // verus!
