use landmass::mesh::{TerrainMesh, UvBits, Vec3Bits, gen_triangles, vertex_adjacent_cells};

#[test]
fn index_count_follows_the_size_formula() {
    // size = 4 gives 18 triangles, 54 index entries.
    assert_eq!(gen_triangles(4).len(), 54);
    assert_eq!(gen_triangles(2).len(), 6);
    assert_eq!(gen_triangles(3).len(), 24);
    assert_eq!(gen_triangles(17).len(), 6 * 16 * 16);
}

#[test]
fn smallest_grid_triangulates_exactly() {
    // One cell: triangles (v1, v4, v2) and (v1, v3, v4) over indices
    // 0 1 / 2 3.
    assert_eq!(gen_triangles(2), vec![0, 3, 1, 0, 2, 3]);
}

#[test]
fn three_wide_grid_triangulates_exactly() {
    let t = gen_triangles(3);
    let expected: Vec<u32> = vec![
        0, 4, 1, 0, 3, 4, // cell (0,0)
        1, 5, 2, 1, 4, 5, // cell (1,0)
        3, 7, 4, 3, 6, 7, // cell (0,1)
        4, 8, 5, 4, 7, 8, // cell (1,1)
    ];
    assert_eq!(t, expected);
}

#[test]
fn every_index_references_a_vertex() {
    for size in [2u32, 3, 4, 7, 16] {
        let n = size * size;
        for i in gen_triangles(size) {
            assert!(i < n, "size = {size}");
        }
    }
}

#[test]
fn adjacent_cells_at_corners_edges_and_interior() {
    // Corners of a 4-wide grid have one adjacent face cell.
    assert_eq!(vertex_adjacent_cells(0, 0, 4), vec![(0, 0)]);
    assert_eq!(vertex_adjacent_cells(3, 3, 4), vec![(2, 2)]);
    assert_eq!(vertex_adjacent_cells(3, 0, 4), vec![(2, 0)]);
    assert_eq!(vertex_adjacent_cells(0, 3, 4), vec![(0, 2)]);
    // Edge vertices have two, in accumulation order.
    assert_eq!(vertex_adjacent_cells(1, 0, 4), vec![(1, 0), (0, 0)]);
    assert_eq!(vertex_adjacent_cells(0, 2, 4), vec![(0, 2), (0, 1)]);
    // Interior vertices have four: own cell, diagonal, behind, beside.
    assert_eq!(vertex_adjacent_cells(1, 1, 4), vec![(1, 1), (0, 0), (1, 0), (0, 1)]);
    assert_eq!(vertex_adjacent_cells(2, 1, 4), vec![(2, 1), (1, 0), (2, 0), (1, 1)]);
}

fn flat_attributes(size: u32) -> (Vec<Vec3Bits>, Vec<Vec3Bits>, Vec<UvBits>) {
    let n = (size * size) as usize;
    let zero = 0.0f32.to_bits();
    let one = 1.0f32.to_bits();
    let up = Vec3Bits { x: zero, y: one, z: zero };
    let half = 0.5f32.to_bits();
    let uv = UvBits { u: half, v: half };
    (
        vec![Vec3Bits { x: zero, y: zero, z: zero }; n],
        vec![up; n],
        vec![uv; n],
    )
}

#[test]
fn assemble_accepts_full_buffers_and_sizes_the_mesh() {
    let (positions, normals, uvs) = flat_attributes(4);
    let m = TerrainMesh::assemble(4, positions, normals, uvs).expect("well-sized buffers");
    assert_eq!(m.positions.len(), 16);
    assert_eq!(m.normals.len(), 16);
    assert_eq!(m.uvs.len(), 16);
    assert_eq!(m.indices.len(), 54);
    assert_eq!(m.indices, gen_triangles(4));
}

#[test]
fn assemble_rejects_short_buffers() {
    let (positions, normals, mut uvs) = flat_attributes(4);
    uvs.pop();
    assert!(TerrainMesh::assemble(4, positions, normals, uvs).is_none());
}

#[test]
fn assemble_rejects_uv_outside_the_unit_interval() {
    let (positions, normals, mut uvs) = flat_attributes(4);
    uvs[7] = UvBits { u: 1.5f32.to_bits(), v: 0.0f32.to_bits() };
    assert!(TerrainMesh::assemble(4, positions, normals, uvs).is_none());

    let (positions, normals, mut uvs) = flat_attributes(4);
    uvs[3] = UvBits { u: 0.25f32.to_bits(), v: (-0.25f32).to_bits() };
    assert!(TerrainMesh::assemble(4, positions, normals, uvs).is_none());

    let (positions, normals, mut uvs) = flat_attributes(4);
    uvs[0] = UvBits { u: f32::NAN.to_bits(), v: 0.0f32.to_bits() };
    assert!(TerrainMesh::assemble(4, positions, normals, uvs).is_none());
}

#[test]
fn assemble_rejects_non_unit_normals() {
    // A zero normal: the degenerate case the up-vector fallback must
    // replace before assembly.
    let (positions, normals, uvs) = flat_attributes(4);
    let mut normals = normals;
    let zero = 0.0f32.to_bits();
    normals[5] = Vec3Bits { x: zero, y: zero, z: zero };
    assert!(TerrainMesh::assemble(4, positions, normals, uvs).is_none());

    // An unnormalized normal of length 2.
    let (positions, mut normals, uvs) = flat_attributes(4);
    normals[0] = Vec3Bits { x: zero, y: 2.0f32.to_bits(), z: zero };
    assert!(TerrainMesh::assemble(4, positions, normals, uvs).is_none());

    // A normal slightly outside the 1e-4 tolerance.
    let (positions, mut normals, uvs) = flat_attributes(4);
    normals[7] = Vec3Bits { x: zero, y: 1.001f32.to_bits(), z: zero };
    assert!(TerrainMesh::assemble(4, positions, normals, uvs).is_none());

    // A NaN component.
    let (positions, mut normals, uvs) = flat_attributes(4);
    normals[3] = Vec3Bits { x: f32::NAN.to_bits(), y: 1.0f32.to_bits(), z: zero };
    assert!(TerrainMesh::assemble(4, positions, normals, uvs).is_none());

    // An infinite component.
    let (positions, mut normals, uvs) = flat_attributes(4);
    normals[9] = Vec3Bits { x: zero, y: f32::INFINITY.to_bits(), z: zero };
    assert!(TerrainMesh::assemble(4, positions, normals, uvs).is_none());
}

#[test]
fn assemble_accepts_unit_normals_in_any_direction() {
    let (positions, mut normals, uvs) = flat_attributes(4);
    let zero = 0.0f32.to_bits();
    let d = 0.57735f32; // 1/sqrt(3)
    normals[0] = Vec3Bits { x: 0.6f32.to_bits(), y: 0.8f32.to_bits(), z: zero };
    normals[1] = Vec3Bits { x: (-0.6f32).to_bits(), y: zero, z: (-0.8f32).to_bits() };
    normals[2] = Vec3Bits { x: d.to_bits(), y: d.to_bits(), z: d.to_bits() };
    normals[3] = Vec3Bits { x: 1.0f32.to_bits(), y: zero, z: zero };
    assert!(TerrainMesh::assemble(4, positions, normals, uvs).is_some());
}

#[test]
fn assemble_accepts_uv_exactly_on_the_bounds() {
    let (positions, normals, mut uvs) = flat_attributes(2);
    uvs[0] = UvBits { u: 0.0f32.to_bits(), v: 1.0f32.to_bits() };
    uvs[3] = UvBits { u: 1.0f32.to_bits(), v: 0.0f32.to_bits() };
    assert!(TerrainMesh::assemble(2, positions, normals, uvs).is_some());
}
