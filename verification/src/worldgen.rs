//! World generation and the world store.
//!
//! A chunk's voxels are a pure function of its per-column heights: every
//! column `(x, z)` is filled with `Grass` from the bottom up to
//! (excluding) its height, clamped into `[0, CHUNK_HEIGHT]`, and is
//! `Empty` above. The heights themselves come from a seeded coherent
//! noise field sampled by the host at world-space column coordinates;
//! anything downstream of the heights is verified here.
//!
//! The store maps a chunk grid coordinate to its chunk. Entries are
//! inserted fully generated and never mutated or removed.

use vstd::prelude::*;

use crate::chunk::{
    idx, in_bounds, lemma_idx_bounds, lemma_idx_decomp, lemma_lin_recomp, lin_x, lin_y, lin_z,
    occ_at, Chunk, CHUNK_HEIGHT, CHUNK_VOLUME, CHUNK_WIDTH,
};
use crate::voxel::{Voxel, VoxelType, VOXEL_GRASS};

verus! {

/// Number of columns in a chunk.
pub const COLUMNS: usize = CHUNK_WIDTH * CHUNK_WIDTH;

/// Column index of `(x, z)` in a per-chunk height map.
pub open spec fn col_idx(x: int, z: int) -> int {
    z * (CHUNK_WIDTH as int) + x
}

/// A raw column height clamped into `[0, CHUNK_HEIGHT]`.
pub open spec fn clamped_height(h: u8) -> int {
    if h as int <= CHUNK_HEIGHT as int {
        h as int
    } else {
        CHUNK_HEIGHT as int
    }
}

/// The voxel generation puts at `(x, y, z)` for heights `h`: `Grass`
/// strictly below the column's clamped height, `Empty` at and above it.
pub open spec fn gen_vox(h: Seq<u8>, x: int, y: int, z: int) -> Voxel {
    if y < clamped_height(h[col_idx(x, z)]) {
        Voxel(VOXEL_GRASS)
    } else {
        Voxel(0)
    }
}

/// The complete voxel contents generated from per-column heights `h`:
/// a function of the heights alone.
pub open spec fn generated_voxels(h: Seq<u8>) -> Seq<Voxel> {
    Seq::new(CHUNK_VOLUME as nat, |n: int| gen_vox(h, lin_x(n), lin_y(n), lin_z(n)))
}

/// Fill a chunk from per-column heights.
#[verifier::loop_isolation(false)]
pub fn generate_chunk(heights: &Vec<u8>) -> (c: Chunk)
    requires
        heights@.len() == COLUMNS as nat,
    ensures
        c.wf(),
        c@ == generated_voxels(heights@),
{
    let ghost h = heights@;
    let mut c = Chunk::new();
    let mut z: usize = 0;
    while z < CHUNK_WIDTH
        invariant
            z <= CHUNK_WIDTH,
            c.wf(),
            forall|x2: int, y2: int, z2: int|
                in_bounds(x2, y2, z2) ==> #[trigger] c@[idx(x2, y2, z2)] == (if z2 < z as int {
                    gen_vox(h, x2, y2, z2)
                } else {
                    Voxel(0)
                }),
        decreases CHUNK_WIDTH - z,
    {
        let mut x: usize = 0;
        while x < CHUNK_WIDTH
            invariant
                x <= CHUNK_WIDTH,
                c.wf(),
                forall|x2: int, y2: int, z2: int|
                    in_bounds(x2, y2, z2) ==> #[trigger] c@[idx(x2, y2, z2)] == (if z2 < z as int
                        || (z2 == z as int && x2 < x as int) {
                        gen_vox(h, x2, y2, z2)
                    } else {
                        Voxel(0)
                    }),
            decreases CHUNK_WIDTH - x,
        {
            let hb = heights[z * CHUNK_WIDTH + x];
            let hh: usize = if (hb as usize) > CHUNK_HEIGHT {
                CHUNK_HEIGHT
            } else {
                hb as usize
            };
            assert(hh as int == clamped_height(h[col_idx(x as int, z as int)]));
            let mut y: usize = 0;
            while y < hh
                invariant
                    y <= hh,
                    hh <= CHUNK_HEIGHT,
                    hh as int == clamped_height(h[col_idx(x as int, z as int)]),
                    c.wf(),
                    forall|x2: int, y2: int, z2: int|
                        in_bounds(x2, y2, z2) ==> #[trigger] c@[idx(x2, y2, z2)] == (if z2
                            < z as int || (z2 == z as int && x2 < x as int) {
                            gen_vox(h, x2, y2, z2)
                        } else if z2 == z as int && x2 == x as int && y2 < y as int {
                            Voxel(VOXEL_GRASS)
                        } else {
                            Voxel(0)
                        }),
                decreases hh - y,
            {
                let ghost cpre = c@;
                c.set(x, y, z, Voxel(VOXEL_GRASS));
                proof {
                    lemma_idx_bounds(x as int, y as int, z as int);
                    lemma_idx_decomp(x as int, y as int, z as int);
                    assert forall|x2: int, y2: int, z2: int|
                        in_bounds(x2, y2, z2) implies #[trigger] c@[idx(x2, y2, z2)] == (if z2
                        < z as int || (z2 == z as int && x2 < x as int) {
                        gen_vox(h, x2, y2, z2)
                    } else if z2 == z as int && x2 == x as int && y2 < y as int + 1 {
                        Voxel(VOXEL_GRASS)
                    } else {
                        Voxel(0)
                    }) by {
                        lemma_idx_bounds(x2, y2, z2);
                        lemma_idx_decomp(x2, y2, z2);
                        if idx(x2, y2, z2) != idx(x as int, y as int, z as int) {
                            assert(c@[idx(x2, y2, z2)] == cpre[idx(x2, y2, z2)]);
                        }
                    };
                }
                y = y + 1;
            }
            x = x + 1;
        }
        z = z + 1;
    }
    proof {
        assert forall|n: int| 0 <= n < CHUNK_VOLUME as int implies c@[n] == generated_voxels(h)[n]
            by {
            lemma_lin_recomp(n);
        };
        assert(c@ =~= generated_voxels(h));
    }
    c
}

/// Generation bounds: every column's filled height lies in
/// `[0, CHUNK_HEIGHT]`; voxels strictly below it are `Grass` and voxels
/// at or above it are `Empty`.
pub proof fn lemma_generation_bounds(h: Seq<u8>, x: int, y: int, z: int)
    requires
        in_bounds(x, y, z),
    ensures
        0 <= clamped_height(h[col_idx(x, z)]) <= CHUNK_HEIGHT as int,
        y < clamped_height(h[col_idx(x, z)]) ==> generated_voxels(h)[idx(x, y, z)] == Voxel(
            VOXEL_GRASS,
        ) && crate::voxel::spec_decode(generated_voxels(h)[idx(x, y, z)].0) == VoxelType::Grass,
        y >= clamped_height(h[col_idx(x, z)]) ==> generated_voxels(h)[idx(x, y, z)] == Voxel(0)
            && !occ_at(generated_voxels(h), x, y, z),
{
    lemma_idx_bounds(x, y, z);
    lemma_idx_decomp(x, y, z);
}

/// Generation determinism: the voxel contents are a function of the
/// heights alone, so two independent generation passes over equal
/// heights produce identical voxel arrays.
pub proof fn lemma_generation_deterministic(c1: Seq<Voxel>, c2: Seq<Voxel>, h: Seq<u8>)
    requires
        c1 == generated_voxels(h),
        c2 == generated_voxels(h),
    ensures
        c1 == c2,
{
}

/// A chunk grid coordinate: `x` and `y` index the chunk column along
/// world x and z. There is no vertical chunking.
#[derive(Clone, Copy, Debug, PartialEq, Eq, Structural)]
pub struct ChunkPos {
    pub x: i32,
    pub y: i32,
}

/// The world store: the authoritative mapping from chunk grid
/// coordinate to generated chunk, plus the generation seed. A
/// coordinate present in the store is always fully generated.
pub struct VoxelWorld {
    seed: u32,
    positions: Vec<ChunkPos>,
    chunks: Vec<Chunk>,
}

impl VoxelWorld {
    /// The seed the world was created with.
    pub closed spec fn spec_seed(self) -> u32 {
        self.seed
    }

    /// Well-formedness: one chunk per stored coordinate, coordinates
    /// unique, every stored chunk structurally sound.
    pub closed spec fn wf(self) -> bool {
        &&& self.positions@.len() == self.chunks@.len()
        &&& forall|i: int, j: int|
            0 <= i < j < self.positions@.len() ==> self.positions@[i] != self.positions@[j]
        &&& forall|i: int| 0 <= i < self.chunks@.len() ==> (#[trigger] self.chunks@[i]).wf()
    }

    /// Whether a chunk for coordinate `p` is resident.
    pub closed spec fn has_chunk(self, p: ChunkPos) -> bool {
        exists|i: int| 0 <= i < self.positions@.len() && self.positions@[i] == p
    }

    /// The storage slot of coordinate `p`.
    spec fn slot_of(self, p: ChunkPos) -> int {
        choose|i: int| 0 <= i < self.positions@.len() && self.positions@[i] == p
    }

    /// The voxel contents stored for coordinate `p`.
    pub closed spec fn chunk_view(self, p: ChunkPos) -> Seq<Voxel> {
        self.chunks@[self.slot_of(p)]@
    }

    /// Create an empty world with the given generation seed.
    pub fn new(seed: u32) -> (w: VoxelWorld)
        ensures
            w.wf(),
            w.spec_seed() == seed,
            forall|p: ChunkPos| !w.has_chunk(p),
    {
        VoxelWorld { seed, positions: Vec::new(), chunks: Vec::new() }
    }

    /// The generation seed.
    pub fn seed(&self) -> (s: u32)
        ensures
            s == self.spec_seed(),
    {
        self.seed
    }

    /// Non-blocking read: the chunk at `p`, if it has been generated.
    pub fn get(&self, p: ChunkPos) -> (r: Option<&Chunk>)
        requires
            self.wf(),
        ensures
            match r {
                Some(c) => self.has_chunk(p) && c.wf() && c@ == self.chunk_view(p),
                None => !self.has_chunk(p),
            },
    {
        let n = self.positions.len();
        let mut i: usize = 0;
        while i < n
            invariant
                self.wf(),
                n == self.positions@.len(),
                i <= n,
                forall|k: int| 0 <= k < i as int ==> self.positions@[k] != p,
            decreases n - i,
        {
            if self.positions[i] == p {
                let c = &self.chunks[i];
                proof {
                    assert(self.has_chunk(p));
                    let s = self.slot_of(p);
                    if s != i as int {
                        assert(self.positions@[s] == self.positions@[i as int]);
                        assert(false);
                    }
                }
                return Some(c);
            }
            i = i + 1;
        }
        proof {
            if self.has_chunk(p) {
                let w = choose|k: int|
                    0 <= k < self.positions@.len() && self.positions@[k] == p;
                assert(self.positions@[w] != p);
            }
        }
        None
    }

    /// Ensure the chunk at `p` is resident: if absent, generate it from
    /// the given heights and insert it, fully populated, before
    /// returning. A present chunk is left untouched.
    pub fn ensure_generated(&mut self, p: ChunkPos, heights: &Vec<u8>)
        requires
            old(self).wf(),
            heights@.len() == COLUMNS as nat,
        ensures
            final(self).wf(),
            final(self).spec_seed() == old(self).spec_seed(),
            final(self).has_chunk(p),
            final(self).chunk_view(p) == if old(self).has_chunk(p) {
                old(self).chunk_view(p)
            } else {
                generated_voxels(heights@)
            },
            forall|q: ChunkPos|
                q != p ==> (final(self).has_chunk(q) <==> old(self).has_chunk(q)),
            forall|q: ChunkPos|
                q != p && old(self).has_chunk(q) ==> final(self).chunk_view(q) == old(
                    self,
                ).chunk_view(q),
    {
        let present = match self.get(p) {
            Some(_) => true,
            None => false,
        };
        if !present {
            let c = generate_chunk(heights);
            let ghost w0 = *self;
            let ghost n0 = self.positions@.len() as int;
            self.positions.push(p);
            self.chunks.push(c);
            proof {
                assert(self.positions@[n0] == p);
                assert(self.has_chunk(p));
                assert forall|i: int, j: int|
                    0 <= i < j < self.positions@.len() implies self.positions@[i]
                    != self.positions@[j] by {
                    if j == n0 {
                        assert(self.positions@[i] == w0.positions@[i]);
                        assert(w0.has_chunk(p) ==> false);
                    }
                };
                let s = self.slot_of(p);
                if s != n0 {
                    assert(self.positions@[s] == self.positions@[n0]);
                    assert(false);
                }
                assert(self.chunk_view(p) == c@);
                assert forall|q: ChunkPos|
                    q != p implies (self.has_chunk(q) <==> w0.has_chunk(q)) by {
                    if self.has_chunk(q) {
                        let w = choose|i: int|
                            0 <= i < self.positions@.len() && self.positions@[i] == q;
                        assert(w != n0);
                        assert(w0.positions@[w] == q);
                    }
                    if w0.has_chunk(q) {
                        let w = choose|i: int|
                            0 <= i < w0.positions@.len() && w0.positions@[i] == q;
                        assert(self.positions@[w] == q);
                    }
                };
                assert forall|q: ChunkPos|
                    q != p && w0.has_chunk(q) implies self.chunk_view(q) == w0.chunk_view(q) by {
                    let s1 = self.slot_of(q);
                    let s0 = w0.slot_of(q);
                    assert(self.has_chunk(q));
                    assert(self.positions@[s1] == q);
                    assert(w0.positions@[s0] == q);
                    assert(s1 != n0);
                    assert(self.positions@[s0] == q);
                    if s0 != s1 {
                        assert(false);
                    }
                };
            }
        }
    }
}

} // verus!
