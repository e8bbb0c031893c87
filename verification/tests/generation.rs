use noise::{Fbm, MultiFractal, NoiseFn, Perlin};
use voxel_terrain::chunk::{Chunk, CHUNK_HEIGHT, CHUNK_WIDTH};
use voxel_terrain::voxel::{decode, VoxelType};
use voxel_terrain::worldgen::{generate_chunk, COLUMNS};

const WORLD_SCALE: f64 = 0.5;
const WORLD_FREQUENCY: f64 = 0.01;

/// Per-column heights for one chunk, sampled from the seeded fractal
/// noise field at world-space column coordinates, remapped from
/// [-1, 1] into [0, 1], scaled into voxel units and clamped.
fn sample_heights(seed: u32, cx: i32, cy: i32) -> Vec<u8> {
    let fbm = Fbm::<Perlin>::new(seed).set_frequency(WORLD_FREQUENCY);
    let mut heights = Vec::with_capacity(COLUMNS);
    for z in 0..CHUNK_WIDTH {
        for x in 0..CHUNK_WIDTH {
            let point = [
                (cx * CHUNK_WIDTH as i32 + x as i32) as f64,
                (cy * CHUNK_WIDTH as i32 + z as i32) as f64,
            ];
            let mut h = fbm.get(point) * WORLD_SCALE;
            h = (h + 1.0) / 2.0;
            h = (h * CHUNK_HEIGHT as f64).floor();
            h = h.clamp(0.0, CHUNK_HEIGHT as f64);
            heights.push(h as u8);
        }
    }
    heights
}

fn column_height(c: &Chunk, x: usize, z: usize) -> usize {
    let mut h = 0;
    for y in 0..CHUNK_HEIGHT {
        if decode(c.get(x, y, z).0) != VoxelType::Empty {
            h = y + 1;
        }
    }
    h
}

#[test]
fn generation_is_deterministic_for_fixed_seed_and_coordinate() {
    let h1 = sample_heights(42, 3, -7);
    let h2 = sample_heights(42, 3, -7);
    assert_eq!(h1, h2);
    let c1 = generate_chunk(&h1);
    let c2 = generate_chunk(&h2);
    assert_eq!(c1.voxels(), c2.voxels());
}

#[test]
fn generation_fills_grass_below_height_and_empty_above() {
    let mut heights = vec![0u8; COLUMNS];
    heights[0] = 0; // column (0, 0)
    heights[5] = 3; // column (5, 0)
    heights[2 * CHUNK_WIDTH + 9] = 200; // column (9, 2): clamps to CHUNK_HEIGHT
    let c = generate_chunk(&heights);
    for y in 0..CHUNK_HEIGHT {
        assert_eq!(decode(c.get(0, y, 0).0), VoxelType::Empty);
        let expect5 = if y < 3 { VoxelType::Grass } else { VoxelType::Empty };
        assert_eq!(decode(c.get(5, y, 0).0), expect5);
        assert_eq!(decode(c.get(9, y, 2).0), VoxelType::Grass);
    }
}

#[test]
fn generated_heights_stay_within_chunk_height() {
    let heights = sample_heights(7, -2, 5);
    assert_eq!(heights.len(), COLUMNS);
    let c = generate_chunk(&heights);
    for z in 0..CHUNK_WIDTH {
        for x in 0..CHUNK_WIDTH {
            let h = column_height(&c, x, z);
            assert!(h <= CHUNK_HEIGHT);
            // Grass strictly below the column height, Empty at and above.
            for y in 0..CHUNK_HEIGHT {
                let t = decode(c.get(x, y, z).0);
                if y < h {
                    assert_eq!(t, VoxelType::Grass);
                } else {
                    assert_eq!(t, VoxelType::Empty);
                }
            }
        }
    }
}

#[test]
fn end_to_end_reference_scenario_is_repeatable() {
    // seed 0, chunk (0, 0), width 32, height 64, frequency 0.01, scale 0.5.
    let run = || {
        let heights = sample_heights(0, 0, 0);
        generate_chunk(&heights)
    };
    let c1 = run();
    let c2 = run();
    assert_eq!(c1.voxels(), c2.voxels());
    // The terrain is not degenerate: something was generated...
    let m1 = c1.mesh();
    assert!(!m1.positions.is_empty());
    // ...and meshing the identical contents is identical too.
    let m2 = c2.mesh();
    assert_eq!(m1.positions, m2.positions);
    assert_eq!(m1.indices, m2.indices);
}
