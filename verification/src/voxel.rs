//! The atomic terrain unit: a single-byte type tag.
//!
//! Bit 7 of the byte marks an occupied voxel; the remaining bits pick the
//! material. Decoding is total: every byte maps to exactly one
//! [`VoxelType`], and unrecognised occupied patterns degrade to `Empty`.

use vstd::prelude::*;

verus! {

/// Canonical encoding of an occupied grass voxel.
pub const VOXEL_GRASS: u8 = 0b1000_0000;

/// Canonical encoding of an occupied dirt voxel.
pub const VOXEL_DIRT: u8 = 0b1000_0001;

/// The material carried by a voxel tag.
#[derive(Clone, Copy, Debug, PartialEq, Eq, Structural)]
pub enum VoxelType {
    Empty,
    Grass,
    Dirt,
}

/// A voxel: a plain single-byte value, copied freely.
#[derive(Clone, Copy, Debug, PartialEq, Eq, Structural)]
pub struct Voxel(pub u8);

impl Default for Voxel {
    /// A freshly allocated voxel is empty.
    fn default() -> (v: Voxel)
        ensures
            v.0 == 0,
    {
        Voxel(0)
    }
}

/// What a byte decodes to: only the two canonical occupied patterns
/// yield a non-`Empty` material; every other byte is `Empty`.
pub open spec fn spec_decode(b: u8) -> VoxelType {
    if b == VOXEL_GRASS {
        VoxelType::Grass
    } else if b == VOXEL_DIRT {
        VoxelType::Dirt
    } else {
        VoxelType::Empty
    }
}

/// The canonical byte for each material.
pub open spec fn spec_encode(t: VoxelType) -> u8 {
    match t {
        VoxelType::Empty => 0,
        VoxelType::Grass => VOXEL_GRASS,
        VoxelType::Dirt => VOXEL_DIRT,
    }
}

/// Decode a byte into its voxel type. Total: never fails, unrecognised
/// occupied patterns degrade to `Empty`.
pub fn decode(b: u8) -> (t: VoxelType)
    ensures
        t == spec_decode(b),
{
    proof {
        assert((b >> 7) & 1 != 1 ==> b != 0b1000_0000 && b != 0b1000_0001) by (bit_vector);
    }
    if !((b >> 7) & 1 == 1) {
        VoxelType::Empty
    } else if b == VOXEL_GRASS {
        VoxelType::Grass
    } else if b == VOXEL_DIRT {
        VoxelType::Dirt
    } else {
        VoxelType::Empty
    }
}

/// Encode a voxel type as its canonical byte.
pub fn encode(t: VoxelType) -> (b: u8)
    ensures
        b == spec_encode(t),
{
    match t {
        VoxelType::Empty => 0,
        VoxelType::Grass => VOXEL_GRASS,
        VoxelType::Dirt => VOXEL_DIRT,
    }
}

/// Decoding is total and pins the two canonical patterns: a byte decodes
/// to `Grass` or `Dirt` exactly on its canonical encoding, and to `Empty`
/// on every other value.
pub proof fn lemma_decode_total(b: u8)
    ensures
        spec_decode(b) == VoxelType::Empty || spec_decode(b) == VoxelType::Grass
            || spec_decode(b) == VoxelType::Dirt,
        spec_decode(b) == VoxelType::Grass <==> b == VOXEL_GRASS,
        spec_decode(b) == VoxelType::Dirt <==> b == VOXEL_DIRT,
        spec_decode(b) == VoxelType::Empty <==> (b != VOXEL_GRASS && b != VOXEL_DIRT),
{
}

/// `decode` is a left inverse of `encode` on the three defined materials.
pub proof fn lemma_encode_decode(t: VoxelType)
    ensures
        spec_decode(spec_encode(t)) == t,
{
}

} // verus!
