use voxel_terrain::voxel::{decode, encode, VoxelType, VOXEL_DIRT, VOXEL_GRASS};

#[test]
fn decode_is_total_over_all_bytes() {
    for b in 0..=255u8 {
        let t = decode(b);
        assert!(t == VoxelType::Empty || t == VoxelType::Grass || t == VoxelType::Dirt);
        if b == VOXEL_GRASS {
            assert_eq!(t, VoxelType::Grass);
        } else if b == VOXEL_DIRT {
            assert_eq!(t, VoxelType::Dirt);
        } else {
            assert_eq!(t, VoxelType::Empty);
        }
    }
}

#[test]
fn canonical_patterns_decode_to_materials() {
    assert_eq!(decode(0b1000_0000), VoxelType::Grass);
    assert_eq!(decode(0b1000_0001), VoxelType::Dirt);
}

#[test]
fn unrecognized_occupied_patterns_degrade_to_empty() {
    assert_eq!(decode(0b1000_0010), VoxelType::Empty);
    assert_eq!(decode(0b1111_1111), VoxelType::Empty);
    assert_eq!(decode(0), VoxelType::Empty);
    assert_eq!(decode(0b0111_1111), VoxelType::Empty);
}

#[test]
fn decode_is_left_inverse_of_encode() {
    for t in [VoxelType::Empty, VoxelType::Grass, VoxelType::Dirt] {
        assert_eq!(decode(encode(t)), t);
    }
}

#[test]
fn encode_yields_canonical_bytes() {
    assert_eq!(encode(VoxelType::Empty), 0);
    assert_eq!(encode(VoxelType::Grass), VOXEL_GRASS);
    assert_eq!(encode(VoxelType::Dirt), VOXEL_DIRT);
}
