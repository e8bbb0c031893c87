use voxel_terrain::stream::{observer_chunk, plan_chunks, LastChunkPos, RENDER_DISTANCE};
use voxel_terrain::worldgen::{ChunkPos, VoxelWorld, COLUMNS};

#[test]
fn observer_chunk_uses_floor_division() {
    assert_eq!(observer_chunk(0, 0), ChunkPos { x: 0, y: 0 });
    assert_eq!(observer_chunk(31, 32), ChunkPos { x: 0, y: 1 });
    assert_eq!(observer_chunk(-1, -32), ChunkPos { x: -1, y: -1 });
    assert_eq!(observer_chunk(-33, 95), ChunkPos { x: -2, y: 2 });
    assert_eq!(observer_chunk(i32::MIN, i32::MAX), ChunkPos { x: -67108864, y: 67108863 });
}

#[test]
fn window_is_covered_after_streaming_settles() {
    let mut world = VoxelWorld::new(0);
    let mut last = LastChunkPos(ChunkPos { x: -1, y: -1 });
    let todo = plan_chunks(&world, &mut last, 10, 20);
    let center = observer_chunk(10, 20);
    assert_eq!(last.0, center);
    // The whole half-open window around (0, 0) is missing: 4 x 4 coordinates.
    assert_eq!(todo.len(), 16);
    let heightmaps: Vec<Vec<u8>> = todo.iter().map(|_| vec![4u8; COLUMNS]).collect();
    let reqs = world.commit_all(&todo, &heightmaps);
    assert_eq!(reqs.len(), todo.len());
    for dy in -RENDER_DISTANCE..RENDER_DISTANCE {
        for dx in -RENDER_DISTANCE..RENDER_DISTANCE {
            let p = ChunkPos { x: center.x + dx, y: center.y + dy };
            assert!(world.get(p).is_some());
        }
    }
    // A coordinate just outside the window was not generated.
    assert!(world.get(ChunkPos { x: center.x + RENDER_DISTANCE, y: center.y }).is_none());
    assert!(world.get(ChunkPos { x: center.x - RENDER_DISTANCE - 1, y: center.y }).is_none());
}

#[test]
fn planning_is_skipped_while_observer_chunk_is_unchanged() {
    let world = VoxelWorld::new(0);
    let mut last = LastChunkPos(ChunkPos { x: -1, y: -1 });
    let first = plan_chunks(&world, &mut last, 40, 40);
    assert_eq!(first.len(), 16);
    // Moving within the same chunk plans nothing, even though nothing
    // was committed yet.
    let again = plan_chunks(&world, &mut last, 45, 33);
    assert!(again.is_empty());
    // Crossing into the next chunk plans again.
    let moved = plan_chunks(&world, &mut last, 64, 33);
    assert_eq!(moved.len(), 16);
}

#[test]
fn planning_reports_only_missing_coordinates() {
    let mut world = VoxelWorld::new(0);
    let pre = ChunkPos { x: 0, y: 0 };
    world.ensure_generated(pre, &vec![1u8; COLUMNS]);
    let mut last = LastChunkPos(ChunkPos { x: 9, y: 9 });
    let todo = plan_chunks(&world, &mut last, 10, 20);
    assert_eq!(todo.len(), 15);
    assert!(!todo.contains(&pre));
}

#[test]
fn commit_reports_chunk_world_transform() {
    let mut world = VoxelWorld::new(0);
    let req = world.commit_chunk(ChunkPos { x: 3, y: -2 }, &vec![2u8; COLUMNS]);
    assert_eq!(req.pos, ChunkPos { x: 3, y: -2 });
    assert_eq!(req.world_x, 96);
    assert_eq!(req.world_z, -64);
    // Each committed column of height 2 is a 32 x 32 field: the mesh is
    // not empty and its indices stay inside the position buffer.
    assert!(!req.mesh.positions.is_empty());
    for &i in req.mesh.indices.iter() {
        assert!((i as usize) < req.mesh.positions.len());
    }
}

#[test]
fn ensure_generated_leaves_present_chunks_untouched() {
    let mut world = VoxelWorld::new(7);
    let p = ChunkPos { x: 1, y: 1 };
    world.ensure_generated(p, &vec![5u8; COLUMNS]);
    let before = world.get(p).unwrap().voxels().clone();
    // Re-ensuring with different heights must not regenerate.
    world.ensure_generated(p, &vec![60u8; COLUMNS]);
    let after = world.get(p).unwrap().voxels().clone();
    assert_eq!(before, after);
    assert_eq!(world.seed(), 7);
}
