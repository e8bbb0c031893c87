//! Face-culled mesh extraction.
//!
//! Every voxel position is visited in a fixed z-major order. An occupied
//! voxel contributes its 8 cube corners to the position buffer, and two
//! triangles (6 indices) for each of its 6 axis-aligned faces whose
//! neighbour is Empty or lies outside the chunk bounds; a face whose
//! in-bounds neighbour is occupied is culled. Index offsets advance by 8
//! per occupied voxel regardless of how many faces were culled.
//!
//! Corner coordinates are integers in half-voxel units: a unit cube
//! centred at `(x, y, z)` has corners `2x - 1` and `2x + 1` along x, and
//! likewise along y and z. A renderer scales by one half to recover
//! world units.

use vstd::prelude::*;

use crate::chunk::{
    idx, in_bounds, lemma_idx_bounds, lemma_idx_decomp, lemma_lin_recomp, lin_x, lin_y, lin_z,
    Chunk, CHUNK_HEIGHT, CHUNK_VOLUME, CHUNK_WIDTH, occ_at,
};
use crate::voxel::{decode, VoxelType};

verus! {

/// A triangle mesh: a position buffer of corner coordinates in
/// half-voxel units and a triangle-list index buffer into it.
pub struct ChunkMesh {
    pub positions: Vec<(i32, i32, i32)>,
    pub indices: Vec<u32>,
}

/// Corner `v` (0 to 7) of the unit cube centred at `(x, y, z)`, in
/// half-voxel units. Bit 0 of `v` picks the +x side, bit 1 the +y side,
/// bit 2 the +z side.
pub open spec fn corner(x: int, y: int, z: int, v: int) -> (i32, i32, i32) {
    (
        (if v % 2 == 1 { 2 * x + 1 } else { 2 * x - 1 }) as i32,
        (if (v / 2) % 2 == 1 { 2 * y + 1 } else { 2 * y - 1 }) as i32,
        (if v >= 4 { 2 * z + 1 } else { 2 * z - 1 }) as i32,
    )
}

/// The 8 corners a voxel at `(x, y, z)` contributes, in order.
pub open spec fn corners_of(x: int, y: int, z: int) -> Seq<(i32, i32, i32)> {
    Seq::new(8, |v: int| corner(x, y, z, v))
}

/// Offset to the neighbour tested by face `f`: the six canonical
/// directions -z, +z, -y, +y, -x, +x in that order.
pub open spec fn face_dir(f: int) -> (int, int, int) {
    if f == 0 {
        (0, 0, -1)
    } else if f == 1 {
        (0, 0, 1)
    } else if f == 2 {
        (0, -1, 0)
    } else if f == 3 {
        (0, 1, 0)
    } else if f == 4 {
        (-1, 0, 0)
    } else {
        (1, 0, 0)
    }
}

/// A face is emitted exactly when its neighbour is outside the chunk
/// bounds or not occupied; it is culled when an in-bounds neighbour is
/// occupied.
pub open spec fn face_visible(c: Seq<crate::voxel::Voxel>, x: int, y: int, z: int, f: int) -> bool {
    let d = face_dir(f);
    !(in_bounds(x + d.0, y + d.1, z + d.2) && occ_at(c, x + d.0, y + d.1, z + d.2))
}

/// Corner number (0 to 7) referenced by slot `j` of face `f`'s two
/// triangles, wound so the outward normal follows a right-handed
/// convention.
pub open spec fn face_corner(f: int, j: int) -> int {
    if f == 0 {
        if j == 0 { 0 } else if j == 1 { 2 } else if j == 2 { 1 }
        else if j == 3 { 1 } else if j == 4 { 2 } else { 3 }
    } else if f == 1 {
        if j == 0 { 4 } else if j == 1 { 5 } else if j == 2 { 6 }
        else if j == 3 { 5 } else if j == 4 { 7 } else { 6 }
    } else if f == 2 {
        if j == 0 { 0 } else if j == 1 { 1 } else if j == 2 { 4 }
        else if j == 3 { 1 } else if j == 4 { 5 } else { 4 }
    } else if f == 3 {
        if j == 0 { 2 } else if j == 1 { 6 } else if j == 2 { 3 }
        else if j == 3 { 3 } else if j == 4 { 6 } else { 7 }
    } else if f == 4 {
        if j == 0 { 0 } else if j == 1 { 4 } else if j == 2 { 2 }
        else if j == 3 { 2 } else if j == 4 { 4 } else { 6 }
    } else {
        if j == 0 { 1 } else if j == 1 { 3 } else if j == 2 { 5 }
        else if j == 3 { 3 } else if j == 4 { 7 } else { 5 }
    }
}

/// The 6 indices face `f` appends when emitted, offset by `base`, the
/// index of the owning voxel's first corner.
pub open spec fn face_indices(f: int, base: int) -> Seq<u32> {
    Seq::new(6, |j: int| (base + face_corner(f, j)) as u32)
}

/// Indices appended for the first `f` faces of the voxel at
/// `(x, y, z)` whose corners start at `base`.
pub open spec fn faces_upto(
    c: Seq<crate::voxel::Voxel>,
    x: int,
    y: int,
    z: int,
    base: int,
    f: int,
) -> Seq<u32>
    decreases f,
{
    if f <= 0 {
        Seq::empty()
    } else if face_visible(c, x, y, z, f - 1) {
        faces_upto(c, x, y, z, base, f - 1) + face_indices(f - 1, base)
    } else {
        faces_upto(c, x, y, z, base, f - 1)
    }
}

/// How many of the first `f` faces of the voxel at `(x, y, z)` are
/// emitted.
pub open spec fn vis_count(c: Seq<crate::voxel::Voxel>, x: int, y: int, z: int, f: int) -> int
    decreases f,
{
    if f <= 0 {
        0
    } else if face_visible(c, x, y, z, f - 1) {
        vis_count(c, x, y, z, f - 1) + 1
    } else {
        vis_count(c, x, y, z, f - 1)
    }
}

/// Whether the `n`-th voxel in storage order is occupied.
pub open spec fn occ_lin(c: Seq<crate::voxel::Voxel>, n: int) -> bool {
    occ_at(c, lin_x(n), lin_y(n), lin_z(n))
}

/// How many of the first `n` voxels in storage order are occupied.
pub open spec fn count_upto(c: Seq<crate::voxel::Voxel>, n: int) -> int
    decreases n,
{
    if n <= 0 {
        0
    } else if occ_lin(c, n - 1) {
        count_upto(c, n - 1) + 1
    } else {
        count_upto(c, n - 1)
    }
}

/// The position buffer after visiting the first `n` voxels.
pub open spec fn positions_upto(c: Seq<crate::voxel::Voxel>, n: int) -> Seq<(i32, i32, i32)>
    decreases n,
{
    if n <= 0 {
        Seq::empty()
    } else if occ_lin(c, n - 1) {
        positions_upto(c, n - 1) + corners_of(lin_x(n - 1), lin_y(n - 1), lin_z(n - 1))
    } else {
        positions_upto(c, n - 1)
    }
}

/// The index buffer after visiting the first `n` voxels.
pub open spec fn indices_upto(c: Seq<crate::voxel::Voxel>, n: int) -> Seq<u32>
    decreases n,
{
    if n <= 0 {
        Seq::empty()
    } else if occ_lin(c, n - 1) {
        indices_upto(c, n - 1) + faces_upto(
            c,
            lin_x(n - 1),
            lin_y(n - 1),
            lin_z(n - 1),
            8 * count_upto(c, n - 1),
            6,
        )
    } else {
        indices_upto(c, n - 1)
    }
}

/// The complete position buffer of a chunk's mesh.
pub open spec fn mesh_positions(c: Seq<crate::voxel::Voxel>) -> Seq<(i32, i32, i32)> {
    positions_upto(c, CHUNK_VOLUME as int)
}

/// The complete index buffer of a chunk's mesh.
pub open spec fn mesh_indices(c: Seq<crate::voxel::Voxel>) -> Seq<u32> {
    indices_upto(c, CHUNK_VOLUME as int)
}

/// At most `n` of the first `n` voxels are occupied.
pub proof fn lemma_count_upto_bound(c: Seq<crate::voxel::Voxel>, n: int)
    requires
        n >= 0,
    ensures
        0 <= count_upto(c, n) <= n,
    decreases n,
{
    if n > 0 {
        lemma_count_upto_bound(c, n - 1);
    }
}

impl Chunk {
    /// Whether the voxel at `(x, y, z)` is occupied.
    fn occupied(&self, x: usize, y: usize, z: usize) -> (r: bool)
        requires
            self.wf(),
            in_bounds(x as int, y as int, z as int),
        ensures
            r == occ_at(self@, x as int, y as int, z as int),
    {
        let v = self.get(x, y, z);
        decode(v.0) != VoxelType::Empty
    }

    /// Whether face `f` of the voxel at `(x, y, z)` is emitted: its
    /// neighbour is outside the chunk or not occupied.
    fn face_open(&self, x: usize, y: usize, z: usize, f: usize) -> (r: bool)
        requires
            self.wf(),
            in_bounds(x as int, y as int, z as int),
            f < 6,
        ensures
            r == face_visible(self@, x as int, y as int, z as int, f as int),
    {
        match f {
            0 => z == 0 || !self.occupied(x, y, z - 1),
            1 => z + 1 >= CHUNK_WIDTH || !self.occupied(x, y, z + 1),
            2 => y == 0 || !self.occupied(x, y - 1, z),
            3 => y + 1 >= CHUNK_HEIGHT || !self.occupied(x, y + 1, z),
            4 => x == 0 || !self.occupied(x - 1, y, z),
            _ => x + 1 >= CHUNK_WIDTH || !self.occupied(x + 1, y, z),
        }
    }

    /// Extract the face-culled triangle mesh of this chunk.
    ///
    /// The buffers are exactly the z-major fold described by
    /// [`mesh_positions`] and [`mesh_indices`], and every index points
    /// inside the position buffer. An all-Empty chunk yields empty
    /// buffers.
    #[verifier::loop_isolation(false)]
    pub fn mesh(&self) -> (m: ChunkMesh)
        requires
            self.wf(),
        ensures
            m.positions@ == mesh_positions(self@),
            m.indices@ == mesh_indices(self@),
            forall|k: int|
                0 <= k < m.indices@.len() ==> (m.indices@[k] as int) < m.positions@.len(),
    {
        let ghost cv = self@;
        let mut positions: Vec<(i32, i32, i32)> = Vec::new();
        let mut indices: Vec<u32> = Vec::new();
        let mut count: u32 = 0;
        let mut n: usize = 0;
        while n < CHUNK_VOLUME
            invariant
                n <= CHUNK_VOLUME,
                count as int == count_upto(cv, n as int),
                positions@ == positions_upto(cv, n as int),
                indices@ == indices_upto(cv, n as int),
            decreases CHUNK_VOLUME - n,
        {
            proof {
                lemma_count_upto_bound(cv, n as int);
            }
            let x = n % CHUNK_WIDTH;
            let y = (n / CHUNK_WIDTH) % CHUNK_HEIGHT;
            let z = n / (CHUNK_WIDTH * CHUNK_HEIGHT);
            assert(x as int == lin_x(n as int));
            assert(y as int == lin_y(n as int));
            assert(z as int == lin_z(n as int));
            proof {
                vstd::arithmetic::div_mod::lemma_fundamental_div_mod(
                    n as int,
                    (CHUNK_WIDTH * CHUNK_HEIGHT) as int,
                );
            }
            assert(z < CHUNK_WIDTH);
            let v = self.get(x, y, z);
            if decode(v.0) != VoxelType::Empty {
                assert(occ_lin(cv, n as int));
                let xi = x as i32;
                let yi = y as i32;
                let zi = z as i32;
                positions.push((2 * xi - 1, 2 * yi - 1, 2 * zi - 1));
                positions.push((2 * xi + 1, 2 * yi - 1, 2 * zi - 1));
                positions.push((2 * xi - 1, 2 * yi + 1, 2 * zi - 1));
                positions.push((2 * xi + 1, 2 * yi + 1, 2 * zi - 1));
                positions.push((2 * xi - 1, 2 * yi - 1, 2 * zi + 1));
                positions.push((2 * xi + 1, 2 * yi - 1, 2 * zi + 1));
                positions.push((2 * xi - 1, 2 * yi + 1, 2 * zi + 1));
                positions.push((2 * xi + 1, 2 * yi + 1, 2 * zi + 1));
                proof {
                    assert(positions@ =~= positions_upto(cv, n as int) + corners_of(
                        x as int,
                        y as int,
                        z as int,
                    ));
                    assert(positions@ == positions_upto(cv, n as int + 1));
                }
                let base: u32 = count * 8;
                let mut f: usize = 0;
                while f < 6
                    invariant
                        f <= 6,
                        indices@ == indices_upto(cv, n as int) + faces_upto(
                            cv,
                            x as int,
                            y as int,
                            z as int,
                            base as int,
                            f as int,
                        ),
                    decreases 6 - f,
                {
                    let open = self.face_open(x, y, z, f);
                    if open {
                        let ghost before = indices@;
                        match f {
                            0 => {
                                indices.push(base);
                                indices.push(base + 2);
                                indices.push(base + 1);
                                indices.push(base + 1);
                                indices.push(base + 2);
                                indices.push(base + 3);
                            },
                            1 => {
                                indices.push(base + 4);
                                indices.push(base + 5);
                                indices.push(base + 6);
                                indices.push(base + 5);
                                indices.push(base + 7);
                                indices.push(base + 6);
                            },
                            2 => {
                                indices.push(base);
                                indices.push(base + 1);
                                indices.push(base + 4);
                                indices.push(base + 1);
                                indices.push(base + 5);
                                indices.push(base + 4);
                            },
                            3 => {
                                indices.push(base + 2);
                                indices.push(base + 6);
                                indices.push(base + 3);
                                indices.push(base + 3);
                                indices.push(base + 6);
                                indices.push(base + 7);
                            },
                            4 => {
                                indices.push(base);
                                indices.push(base + 4);
                                indices.push(base + 2);
                                indices.push(base + 2);
                                indices.push(base + 4);
                                indices.push(base + 6);
                            },
                            _ => {
                                indices.push(base + 1);
                                indices.push(base + 3);
                                indices.push(base + 5);
                                indices.push(base + 3);
                                indices.push(base + 7);
                                indices.push(base + 5);
                            },
                        }
                        proof {
                            assert(indices@ =~= before + face_indices(f as int, base as int));
                        }
                    }
                    f = f + 1;
                }
                proof {
                    assert(indices@ == indices_upto(cv, n as int + 1));
                }
                count = count + 1;
            } else {
                assert(!occ_lin(cv, n as int));
            }
            n = n + 1;
        }
        proof {
            lemma_mesh_index_validity(cv);
            assert forall|k: int|
                0 <= k < indices@.len() implies (#[trigger] indices@[k] as int)
                < positions@.len() by {
                assert(indices@[k] == mesh_indices(cv)[k]);
            };
        }
        ChunkMesh { positions, indices }
    }
}

/// The position buffer holds 8 corners per occupied voxel.
pub proof fn lemma_positions_upto_len(c: Seq<crate::voxel::Voxel>, n: int)
    requires
        n >= 0,
    ensures
        positions_upto(c, n).len() == 8 * count_upto(c, n),
    decreases n,
{
    if n > 0 {
        lemma_positions_upto_len(c, n - 1);
    }
}

/// Faces reference only the owning voxel's 8 corners.
proof fn lemma_faces_upto_range(
    c: Seq<crate::voxel::Voxel>,
    x: int,
    y: int,
    z: int,
    base: int,
    f: int,
)
    requires
        0 <= f <= 6,
        0 <= base,
        base + 8 <= u32::MAX as int,
    ensures
        forall|k: int|
            0 <= k < faces_upto(c, x, y, z, base, f).len()
                ==> base <= (#[trigger] faces_upto(c, x, y, z, base, f)[k] as int) < base + 8,
    decreases f,
{
    if f > 0 {
        lemma_faces_upto_range(c, x, y, z, base, f - 1);
        let prev = faces_upto(c, x, y, z, base, f - 1);
        let cur = faces_upto(c, x, y, z, base, f);
        assert forall|k: int| 0 <= k < cur.len() implies base <= (#[trigger] cur[k] as int) < base
            + 8 by {
            if face_visible(c, x, y, z, f - 1) && k >= prev.len() {
                assert(cur[k] == face_indices(f - 1, base)[k - prev.len()]);
                assert(0 <= face_corner(f - 1, k - prev.len()) < 8);
            } else {
                assert(cur[k] == prev[k]);
            }
        };
    }
}

/// The index buffer emitted for the first `f` faces holds 6 indices per
/// emitted face.
pub proof fn lemma_faces_upto_len(
    c: Seq<crate::voxel::Voxel>,
    x: int,
    y: int,
    z: int,
    base: int,
    f: int,
)
    requires
        f >= 0,
    ensures
        faces_upto(c, x, y, z, base, f).len() == 6 * vis_count(c, x, y, z, f),
        vis_count(c, x, y, z, f) <= f,
    decreases f,
{
    if f > 0 {
        lemma_faces_upto_len(c, x, y, z, base, f - 1);
    }
}

/// Every index emitted for the first `n` voxels points below
/// `8 * count_upto(c, n)`, the length of the position buffer so far.
proof fn lemma_indices_upto_valid(c: Seq<crate::voxel::Voxel>, n: int)
    requires
        0 <= n <= CHUNK_VOLUME as int,
    ensures
        forall|k: int|
            0 <= k < indices_upto(c, n).len()
                ==> 0 <= (#[trigger] indices_upto(c, n)[k] as int) < 8 * count_upto(c, n),
    decreases n,
{
    if n > 0 {
        lemma_indices_upto_valid(c, n - 1);
        lemma_count_upto_bound(c, n - 1);
        let prev = indices_upto(c, n - 1);
        let cur = indices_upto(c, n);
        if occ_lin(c, n - 1) {
            let base = 8 * count_upto(c, n - 1);
            let emitted = faces_upto(c, lin_x(n - 1), lin_y(n - 1), lin_z(n - 1), base, 6);
            lemma_faces_upto_range(c, lin_x(n - 1), lin_y(n - 1), lin_z(n - 1), base, 6);
            assert forall|k: int|
                0 <= k < cur.len() implies 0 <= (#[trigger] cur[k] as int) < 8 * count_upto(
                c,
                n,
            ) by {
                if k >= prev.len() {
                    assert(cur[k] == emitted[k - prev.len()]);
                } else {
                    assert(cur[k] == prev[k]);
                }
            };
        }
    }
}

proof fn lemma_empty_upto(c: Seq<crate::voxel::Voxel>, n: int)
    requires
        0 <= n <= CHUNK_VOLUME as int,
        forall|x: int, y: int, z: int| in_bounds(x, y, z) ==> !occ_at(c, x, y, z),
    ensures
        positions_upto(c, n) == Seq::<(i32, i32, i32)>::empty(),
        indices_upto(c, n) == Seq::<u32>::empty(),
    decreases n,
{
    if n > 0 {
        lemma_empty_upto(c, n - 1);
        lemma_lin_recomp(n - 1);
        assert(!occ_lin(c, n - 1));
    }
}

/// Mesh emptiness: an all-Empty chunk yields an empty position buffer
/// and an empty index buffer.
pub proof fn lemma_all_empty_mesh(c: Seq<crate::voxel::Voxel>)
    requires
        forall|x: int, y: int, z: int| in_bounds(x, y, z) ==> !occ_at(c, x, y, z),
    ensures
        mesh_positions(c) == Seq::<(i32, i32, i32)>::empty(),
        mesh_indices(c) == Seq::<u32>::empty(),
{
    lemma_empty_upto(c, CHUNK_VOLUME as int);
}

/// A voxel all of whose 6 faces are emitted contributes 36 indices.
proof fn lemma_voxel_faces_all_visible(
    c: Seq<crate::voxel::Voxel>,
    x: int,
    y: int,
    z: int,
    base: int,
)
    requires
        forall|f: int| 0 <= f < 6 ==> face_visible(c, x, y, z, f),
    ensures
        faces_upto(c, x, y, z, base, 6).len() == 36,
{
    lemma_faces_upto_len(c, x, y, z, base, 6);
    assert(vis_count(c, x, y, z, 0) == 0);
    assert(vis_count(c, x, y, z, 1) == 1);
    assert(vis_count(c, x, y, z, 2) == 2);
    assert(vis_count(c, x, y, z, 3) == 3);
    assert(vis_count(c, x, y, z, 4) == 4);
    assert(vis_count(c, x, y, z, 5) == 5);
    assert(vis_count(c, x, y, z, 6) == 6);
}

/// A voxel with exactly one culled face contributes 30 indices.
proof fn lemma_voxel_faces_one_culled(
    c: Seq<crate::voxel::Voxel>,
    x: int,
    y: int,
    z: int,
    base: int,
    fc: int,
)
    requires
        0 <= fc < 6,
        !face_visible(c, x, y, z, fc),
        forall|f: int| 0 <= f < 6 && f != fc ==> face_visible(c, x, y, z, f),
    ensures
        faces_upto(c, x, y, z, base, 6).len() == 30,
{
    lemma_faces_upto_len(c, x, y, z, base, 6);
    assert(vis_count(c, x, y, z, 0) == 0);
    assert(vis_count(c, x, y, z, 1) == if fc < 1 { 0int } else { 1int });
    assert(vis_count(c, x, y, z, 2) == if fc < 2 { 1int } else { 2int });
    assert(vis_count(c, x, y, z, 3) == if fc < 3 { 2int } else { 3int });
    assert(vis_count(c, x, y, z, 4) == if fc < 4 { 3int } else { 4int });
    assert(vis_count(c, x, y, z, 5) == if fc < 5 { 4int } else { 5int });
    assert(vis_count(c, x, y, z, 6) == 5);
}

proof fn lemma_single_upto(c: Seq<crate::voxel::Voxel>, x0: int, y0: int, z0: int, n: int)
    requires
        0 <= n <= CHUNK_VOLUME as int,
        in_bounds(x0, y0, z0),
        occ_at(c, x0, y0, z0),
        forall|x: int, y: int, z: int|
            in_bounds(x, y, z) && !(x == x0 && y == y0 && z == z0) ==> !occ_at(c, x, y, z),
    ensures
        count_upto(c, n) == if n > idx(x0, y0, z0) { 1int } else { 0int },
        indices_upto(c, n).len() == if n > idx(x0, y0, z0) { 36int } else { 0int },
    decreases n,
{
    let n0 = idx(x0, y0, z0);
    lemma_idx_bounds(x0, y0, z0);
    lemma_idx_decomp(x0, y0, z0);
    if n > 0 {
        lemma_single_upto(c, x0, y0, z0, n - 1);
        let m = n - 1;
        lemma_lin_recomp(m);
        if m == n0 {
            assert(occ_lin(c, m));
            assert forall|f: int| 0 <= f < 6 implies face_visible(c, x0, y0, z0, f) by {
                let d = face_dir(f);
                if in_bounds(x0 + d.0, y0 + d.1, z0 + d.2) {
                    assert(!(x0 + d.0 == x0 && y0 + d.1 == y0 && z0 + d.2 == z0));
                }
            };
            lemma_voxel_faces_all_visible(c, x0, y0, z0, 8 * count_upto(c, m));
        } else {
            assert(idx(lin_x(m), lin_y(m), lin_z(m)) == m);
            assert(!(lin_x(m) == x0 && lin_y(m) == y0 && lin_z(m) == z0));
            assert(!occ_lin(c, m));
        }
    }
}

/// Face-count bound for an isolated voxel: a chunk whose only occupied
/// voxel has every neighbour Empty or out of bounds meshes to exactly
/// 8 corner positions and 36 indices (12 triangles, one full cube).
pub proof fn lemma_single_voxel_mesh(c: Seq<crate::voxel::Voxel>, x0: int, y0: int, z0: int)
    requires
        in_bounds(x0, y0, z0),
        occ_at(c, x0, y0, z0),
        forall|x: int, y: int, z: int|
            in_bounds(x, y, z) && !(x == x0 && y == y0 && z == z0) ==> !occ_at(c, x, y, z),
    ensures
        mesh_positions(c).len() == 8,
        mesh_indices(c).len() == 36,
{
    lemma_idx_bounds(x0, y0, z0);
    lemma_single_upto(c, x0, y0, z0, CHUNK_VOLUME as int);
    lemma_positions_upto_len(c, CHUNK_VOLUME as int);
}

proof fn lemma_pair_upto(c: Seq<crate::voxel::Voxel>, x0: int, y0: int, z0: int, f0: int, n: int)
    requires
        0 <= n <= CHUNK_VOLUME as int,
        0 <= f0 < 6,
        in_bounds(x0, y0, z0),
        in_bounds(x0 + face_dir(f0).0, y0 + face_dir(f0).1, z0 + face_dir(f0).2),
        occ_at(c, x0, y0, z0),
        occ_at(c, x0 + face_dir(f0).0, y0 + face_dir(f0).1, z0 + face_dir(f0).2),
        forall|x: int, y: int, z: int|
            in_bounds(x, y, z) && !(x == x0 && y == y0 && z == z0) && !(x == x0 + face_dir(f0).0
                && y == y0 + face_dir(f0).1 && z == z0 + face_dir(f0).2) ==> !occ_at(c, x, y, z),
    ensures
        count_upto(c, n) == (if n > idx(x0, y0, z0) { 1int } else { 0int }) + (if n > idx(
            x0 + face_dir(f0).0,
            y0 + face_dir(f0).1,
            z0 + face_dir(f0).2,
        ) {
            1int
        } else {
            0int
        }),
        indices_upto(c, n).len() == 30 * count_upto(c, n),
    decreases n,
{
    let d = face_dir(f0);
    let x1 = x0 + d.0;
    let y1 = y0 + d.1;
    let z1 = z0 + d.2;
    let g0 = if f0 % 2 == 0 { f0 + 1 } else { f0 - 1 };
    let n0 = idx(x0, y0, z0);
    let n1 = idx(x1, y1, z1);
    lemma_idx_bounds(x0, y0, z0);
    lemma_idx_decomp(x0, y0, z0);
    lemma_idx_bounds(x1, y1, z1);
    lemma_idx_decomp(x1, y1, z1);
    assert(n0 != n1);
    if n > 0 {
        lemma_pair_upto(c, x0, y0, z0, f0, n - 1);
        let m = n - 1;
        lemma_lin_recomp(m);
        if m == n0 {
            assert(occ_lin(c, m));
            assert forall|f: int| 0 <= f < 6 && f != f0 implies face_visible(c, x0, y0, z0, f) by {
                let e = face_dir(f);
                if in_bounds(x0 + e.0, y0 + e.1, z0 + e.2) {
                    assert(!(x0 + e.0 == x0 && y0 + e.1 == y0 && z0 + e.2 == z0));
                    assert(!(x0 + e.0 == x1 && y0 + e.1 == y1 && z0 + e.2 == z1));
                }
            };
            assert(!face_visible(c, x0, y0, z0, f0));
            lemma_voxel_faces_one_culled(c, x0, y0, z0, 8 * count_upto(c, m), f0);
        } else if m == n1 {
            assert(occ_lin(c, m));
            assert(x1 + face_dir(g0).0 == x0 && y1 + face_dir(g0).1 == y0 && z1 + face_dir(g0).2
                == z0);
            assert forall|f: int| 0 <= f < 6 && f != g0 implies face_visible(c, x1, y1, z1, f) by {
                let e = face_dir(f);
                if in_bounds(x1 + e.0, y1 + e.1, z1 + e.2) {
                    assert(!(x1 + e.0 == x1 && y1 + e.1 == y1 && z1 + e.2 == z1));
                    assert(!(x1 + e.0 == x0 && y1 + e.1 == y0 && z1 + e.2 == z0));
                }
            };
            assert(!face_visible(c, x1, y1, z1, g0));
            lemma_voxel_faces_one_culled(c, x1, y1, z1, 8 * count_upto(c, m), g0);
        } else {
            assert(idx(lin_x(m), lin_y(m), lin_z(m)) == m);
            assert(!occ_lin(c, m));
        }
    }
}

/// Face culling: for two adjacent occupied voxels, alone in the chunk,
/// the shared interior face is omitted on both sides — 16 corner
/// positions and 60 indices (20 triangles, not 24).
pub proof fn lemma_adjacent_pair_mesh(
    c: Seq<crate::voxel::Voxel>,
    x0: int,
    y0: int,
    z0: int,
    f0: int,
)
    requires
        0 <= f0 < 6,
        in_bounds(x0, y0, z0),
        in_bounds(x0 + face_dir(f0).0, y0 + face_dir(f0).1, z0 + face_dir(f0).2),
        occ_at(c, x0, y0, z0),
        occ_at(c, x0 + face_dir(f0).0, y0 + face_dir(f0).1, z0 + face_dir(f0).2),
        forall|x: int, y: int, z: int|
            in_bounds(x, y, z) && !(x == x0 && y == y0 && z == z0) && !(x == x0 + face_dir(f0).0
                && y == y0 + face_dir(f0).1 && z == z0 + face_dir(f0).2) ==> !occ_at(c, x, y, z),
    ensures
        mesh_positions(c).len() == 16,
        mesh_indices(c).len() == 60,
{
    lemma_idx_bounds(x0, y0, z0);
    lemma_idx_bounds(x0 + face_dir(f0).0, y0 + face_dir(f0).1, z0 + face_dir(f0).2);
    lemma_pair_upto(c, x0, y0, z0, f0, CHUNK_VOLUME as int);
    lemma_positions_upto_len(c, CHUNK_VOLUME as int);
}

/// Index validity: every index in a chunk's mesh is strictly less than
/// the length of its position buffer.
pub proof fn lemma_mesh_index_validity(c: Seq<crate::voxel::Voxel>)
    ensures
        forall|k: int|
            0 <= k < mesh_indices(c).len()
                ==> (#[trigger] mesh_indices(c)[k] as int) < mesh_positions(c).len(),
{
    lemma_indices_upto_valid(c, CHUNK_VOLUME as int);
    lemma_positions_upto_len(c, CHUNK_VOLUME as int);
}

} // verus!
