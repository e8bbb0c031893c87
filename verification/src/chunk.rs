//! Fixed-extent chunk storage.
//!
//! A chunk is a dense 3D array of voxels indexed `[z][y][x]` with extents
//! `CHUNK_WIDTH x CHUNK_HEIGHT x CHUNK_WIDTH`, stored flat in z-major
//! order. A freshly allocated chunk is all-Empty. All access is
//! bounds-checked at the API boundary.

use vstd::arithmetic::div_mod::{
    lemma_div_denominator, lemma_fundamental_div_mod, lemma_fundamental_div_mod_converse_div,
    lemma_fundamental_div_mod_converse_mod,
};
use vstd::prelude::*;

use crate::voxel::{spec_decode, Voxel, VoxelType};

verus! {

/// Horizontal extent of a chunk, in voxels, along both x and z.
pub const CHUNK_WIDTH: usize = 32;

/// Vertical extent of a chunk, in voxels. Height is fully contained in
/// one chunk: there is no vertical chunking.
pub const CHUNK_HEIGHT: usize = 64;

/// Number of voxels in a chunk.
pub const CHUNK_VOLUME: usize = CHUNK_WIDTH * CHUNK_HEIGHT * CHUNK_WIDTH;

/// Whether `(x, y, z)` lies within a chunk's extents.
pub open spec fn in_bounds(x: int, y: int, z: int) -> bool {
    &&& 0 <= x < CHUNK_WIDTH as int
    &&& 0 <= y < CHUNK_HEIGHT as int
    &&& 0 <= z < CHUNK_WIDTH as int
}

/// Position of voxel `(x, y, z)` in the flat z-major storage.
pub open spec fn idx(x: int, y: int, z: int) -> int {
    (z * (CHUNK_HEIGHT as int) + y) * (CHUNK_WIDTH as int) + x
}

/// The x coordinate of the `n`-th voxel in storage order.
pub open spec fn lin_x(n: int) -> int {
    n % (CHUNK_WIDTH as int)
}

/// The y coordinate of the `n`-th voxel in storage order.
pub open spec fn lin_y(n: int) -> int {
    (n / (CHUNK_WIDTH as int)) % (CHUNK_HEIGHT as int)
}

/// The z coordinate of the `n`-th voxel in storage order.
pub open spec fn lin_z(n: int) -> int {
    n / ((CHUNK_WIDTH as int) * (CHUNK_HEIGHT as int))
}

/// Whether the voxel at `(x, y, z)` of chunk contents `c` is occupied.
pub open spec fn occ_at(c: Seq<Voxel>, x: int, y: int, z: int) -> bool {
    spec_decode(c[idx(x, y, z)].0) != VoxelType::Empty
}

/// In-bounds coordinates index within the flat storage.
pub proof fn lemma_idx_bounds(x: int, y: int, z: int)
    requires
        in_bounds(x, y, z),
    ensures
        0 <= idx(x, y, z) < CHUNK_VOLUME as int,
{
}

/// The flat index of in-bounds coordinates decomposes back into them.
pub proof fn lemma_idx_decomp(x: int, y: int, z: int)
    requires
        in_bounds(x, y, z),
    ensures
        lin_x(idx(x, y, z)) == x,
        lin_y(idx(x, y, z)) == y,
        lin_z(idx(x, y, z)) == z,
{
    let w = CHUNK_WIDTH as int;
    let h = CHUNK_HEIGHT as int;
    let n = idx(x, y, z);
    lemma_fundamental_div_mod_converse_mod(n, w, z * h + y, x);
    lemma_fundamental_div_mod_converse_div(n, w, z * h + y, x);
    lemma_fundamental_div_mod_converse_mod(z * h + y, h, z, y);
    lemma_fundamental_div_mod_converse_div(z * h + y, h, z, y);
    lemma_div_denominator(n, w, h);
}

/// Every storage position recomposes to in-bounds coordinates whose
/// flat index is that position.
pub proof fn lemma_lin_recomp(n: int)
    requires
        0 <= n < CHUNK_VOLUME as int,
    ensures
        in_bounds(lin_x(n), lin_y(n), lin_z(n)),
        idx(lin_x(n), lin_y(n), lin_z(n)) == n,
{
    let w = CHUNK_WIDTH as int;
    let h = CHUNK_HEIGHT as int;
    lemma_fundamental_div_mod(n, w);
    lemma_fundamental_div_mod(n / w, h);
    lemma_div_denominator(n, w, h);
}

/// A dense 3D block of voxels, the unit of generation and meshing.
/// Owns its storage outright; immutable after generation.
pub struct Chunk {
    voxels: Vec<Voxel>,
}

impl View for Chunk {
    type V = Seq<Voxel>;

    closed spec fn view(&self) -> Seq<Voxel> {
        self.voxels@
    }
}

impl Chunk {
    /// Structural well-formedness: the storage holds exactly one voxel
    /// per position.
    pub open spec fn wf(&self) -> bool {
        self@.len() == CHUNK_VOLUME as nat
    }

    /// Allocate an all-Empty chunk.
    pub fn new() -> (c: Chunk)
        ensures
            c.wf(),
            forall|n: int| 0 <= n < CHUNK_VOLUME as int ==> (#[trigger] c@[n]) == Voxel(0),
    {
        let mut voxels: Vec<Voxel> = Vec::new();
        let mut i: usize = 0;
        while i < CHUNK_VOLUME
            invariant
                i <= CHUNK_VOLUME,
                voxels@.len() == i as nat,
                forall|n: int| 0 <= n < i as int ==> (#[trigger] voxels@[n]) == Voxel(0),
            decreases CHUNK_VOLUME - i,
        {
            voxels.push(Voxel(0));
            i = i + 1;
        }
        Chunk { voxels }
    }

    /// Read the voxel at `(x, y, z)`.
    pub fn get(&self, x: usize, y: usize, z: usize) -> (v: Voxel)
        requires
            self.wf(),
            in_bounds(x as int, y as int, z as int),
        ensures
            v == self@[idx(x as int, y as int, z as int)],
    {
        proof {
            lemma_idx_bounds(x as int, y as int, z as int);
        }
        self.voxels[(z * CHUNK_HEIGHT + y) * CHUNK_WIDTH + x]
    }

    /// Write the voxel at `(x, y, z)`, leaving every other position
    /// unchanged.
    pub fn set(&mut self, x: usize, y: usize, z: usize, v: Voxel)
        requires
            old(self).wf(),
            in_bounds(x as int, y as int, z as int),
        ensures
            final(self).wf(),
            final(self)@ == old(self)@.update(idx(x as int, y as int, z as int), v),
    {
        proof {
            lemma_idx_bounds(x as int, y as int, z as int);
        }
        self.voxels[(z * CHUNK_HEIGHT + y) * CHUNK_WIDTH + x] = v;
    }

    /// The raw voxel storage, in z-major order.
    pub fn voxels(&self) -> (r: &Vec<Voxel>)
        ensures
            r@ == self@,
    {
        &self.voxels
    }
}

impl Default for Chunk {
    /// A freshly allocated chunk is all-Empty.
    fn default() -> (c: Chunk)
        ensures
            c.wf(),
            forall|n: int| 0 <= n < CHUNK_VOLUME as int ==> (#[trigger] c@[n]) == Voxel(0),
    {
        Chunk::new()
    }
}

} // verus!
