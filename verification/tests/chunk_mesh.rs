use voxel_terrain::chunk::Chunk;
use voxel_terrain::voxel::{Voxel, VOXEL_DIRT, VOXEL_GRASS};

#[test]
fn empty_chunk_meshes_to_empty_buffers() {
    let c = Chunk::new();
    let m = c.mesh();
    assert_eq!(m.positions.len(), 0);
    assert_eq!(m.indices.len(), 0);
}

#[test]
fn single_interior_voxel_emits_full_cube() {
    let mut c = Chunk::new();
    c.set(5, 10, 7, Voxel(VOXEL_GRASS));
    let m = c.mesh();
    assert_eq!(m.positions.len(), 8);
    assert_eq!(m.indices.len(), 36);
}

#[test]
fn single_corner_voxel_still_emits_full_cube() {
    // Boundary voxels render all boundary-facing faces.
    let mut c = Chunk::new();
    c.set(0, 0, 0, Voxel(VOXEL_DIRT));
    let m = c.mesh();
    assert_eq!(m.positions.len(), 8);
    assert_eq!(m.indices.len(), 36);
}

#[test]
fn single_voxel_corner_positions_are_exact() {
    let mut c = Chunk::new();
    c.set(0, 0, 0, Voxel(VOXEL_GRASS));
    let m = c.mesh();
    // Half-voxel units: corners of the unit cube centred at (0, 0, 0).
    assert_eq!(
        m.positions,
        vec![
            (-1, -1, -1),
            (1, -1, -1),
            (-1, 1, -1),
            (1, 1, -1),
            (-1, -1, 1),
            (1, -1, 1),
            (-1, 1, 1),
            (1, 1, 1),
        ]
    );
}

#[test]
fn single_voxel_indices_are_exact() {
    let mut c = Chunk::new();
    c.set(3, 4, 5, Voxel(VOXEL_GRASS));
    let m = c.mesh();
    assert_eq!(
        m.indices,
        vec![
            0, 2, 1, 1, 2, 3, // -z
            4, 5, 6, 5, 7, 6, // +z
            0, 1, 4, 1, 5, 4, // -y
            2, 6, 3, 3, 6, 7, // +y
            0, 4, 2, 2, 4, 6, // -x
            1, 3, 5, 3, 7, 5, // +x
        ]
    );
}

#[test]
fn adjacent_pair_along_x_culls_shared_face() {
    let mut c = Chunk::new();
    c.set(10, 20, 15, Voxel(VOXEL_GRASS));
    c.set(11, 20, 15, Voxel(VOXEL_GRASS));
    let m = c.mesh();
    assert_eq!(m.positions.len(), 16);
    // 20 triangles, not 24: the shared interior face is omitted on both sides.
    assert_eq!(m.indices.len(), 60);
}

#[test]
fn adjacent_pair_along_y_culls_shared_face() {
    let mut c = Chunk::new();
    c.set(10, 20, 15, Voxel(VOXEL_GRASS));
    c.set(10, 21, 15, Voxel(VOXEL_GRASS));
    let m = c.mesh();
    assert_eq!(m.positions.len(), 16);
    assert_eq!(m.indices.len(), 60);
}

#[test]
fn adjacent_pair_along_z_culls_shared_face() {
    let mut c = Chunk::new();
    c.set(10, 20, 15, Voxel(VOXEL_GRASS));
    c.set(10, 20, 16, Voxel(VOXEL_GRASS));
    let m = c.mesh();
    assert_eq!(m.positions.len(), 16);
    assert_eq!(m.indices.len(), 60);
}

#[test]
fn diagonal_pair_culls_nothing() {
    let mut c = Chunk::new();
    c.set(10, 20, 15, Voxel(VOXEL_GRASS));
    c.set(11, 21, 15, Voxel(VOXEL_GRASS));
    let m = c.mesh();
    assert_eq!(m.positions.len(), 16);
    assert_eq!(m.indices.len(), 72);
}

#[test]
fn mesh_indices_stay_within_position_buffer() {
    let mut c = Chunk::new();
    // A small uneven terrain patch.
    for z in 0..8usize {
        for x in 0..8usize {
            let h = (x * 3 + z * 5) % 7 + 1;
            for y in 0..h {
                c.set(x, y, z, Voxel(VOXEL_GRASS));
            }
        }
    }
    let m = c.mesh();
    assert!(!m.indices.is_empty());
    for &i in m.indices.iter() {
        assert!((i as usize) < m.positions.len());
    }
}

#[test]
fn index_offsets_advance_eight_per_occupied_voxel() {
    // Two isolated voxels: the second voxel's faces index its own
    // corner block, starting at 8.
    let mut c = Chunk::new();
    c.set(1, 1, 1, Voxel(VOXEL_GRASS));
    c.set(20, 30, 25, Voxel(VOXEL_GRASS));
    let m = c.mesh();
    assert_eq!(m.positions.len(), 16);
    assert_eq!(m.indices.len(), 72);
    assert!(m.indices[0..36].iter().all(|&i| i < 8));
    assert!(m.indices[36..72].iter().all(|&i| (8..16).contains(&i)));
}
