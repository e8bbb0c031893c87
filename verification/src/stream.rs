//! Chunk streaming: which chunk coordinates must be resident around an
//! observer, and the step that generates and meshes the missing ones.
//!
//! The observer's chunk coordinate is the floor of its world position
//! divided by the chunk width. The required set is the half-open square
//! window of side `2 * RENDER_DISTANCE` whose low corner lies
//! `RENDER_DISTANCE` chunks below the observer chunk on both axes. The
//! host polls the observer position, plans the missing coordinates,
//! supplies per-column heights for each (sampled from its noise field),
//! and commits them; committing yields the mesh and world transform to
//! hand to the renderer.

use vstd::prelude::*;

use crate::chunk::CHUNK_WIDTH;
use crate::mesh::{mesh_indices, mesh_positions, ChunkMesh};
use crate::worldgen::{generated_voxels, ChunkPos, VoxelWorld, COLUMNS};

verus! {

/// How many chunks around the observer, along each horizontal axis,
/// must remain resident.
pub const RENDER_DISTANCE: i32 = 2;

/// The last observer chunk coordinate the streamer acted on; planning
/// is skipped while it is unchanged.
#[derive(Clone, Copy, Debug, PartialEq, Eq, Structural)]
pub struct LastChunkPos(pub ChunkPos);

/// The chunk-grid coordinate covering world coordinate `w`: the floor
/// of `w / CHUNK_WIDTH`.
pub open spec fn chunk_coord_of(w: int) -> int {
    w / (CHUNK_WIDTH as int)
}

/// Whether coordinate `p` lies in the required window around `center`:
/// half-open on both axes, `[center - RENDER_DISTANCE, center + RENDER_DISTANCE)`.
pub open spec fn in_window(center: ChunkPos, p: ChunkPos) -> bool {
    &&& (center.x as int) - (RENDER_DISTANCE as int) <= (p.x as int)
        < (center.x as int) + (RENDER_DISTANCE as int)
    &&& (center.y as int) - (RENDER_DISTANCE as int) <= (p.y as int)
        < (center.y as int) + (RENDER_DISTANCE as int)
}

/// Floor division of a world coordinate by the chunk width.
fn floor_div_width(a: i32) -> (q: i32)
    ensures
        q as int == chunk_coord_of(a as int),
        -67108864 <= q as int <= 67108864,
{
    if a >= 0 {
        let q32: u32 = (a as u32) / (CHUNK_WIDTH as u32);
        proof {
            vstd::arithmetic::div_mod::lemma_fundamental_div_mod(a as int, CHUNK_WIDTH as int);
        }
        q32 as i32
    } else {
        let b: u32 = (-(a as i64)) as u32;
        let d: u32 = (b + 31) / (CHUNK_WIDTH as u32);
        proof {
            vstd::arithmetic::div_mod::lemma_fundamental_div_mod(
                b as int + 31,
                CHUNK_WIDTH as int,
            );
            let r = (b as int + 31) % (CHUNK_WIDTH as int);
            vstd::arithmetic::div_mod::lemma_fundamental_div_mod_converse_div(
                a as int,
                CHUNK_WIDTH as int,
                -(d as int),
                31 - r,
            );
        }
        -(d as i32)
    }
}

/// The chunk coordinate the observer at world position `(wx, wz)`
/// stands in.
pub fn observer_chunk(wx: i32, wz: i32) -> (p: ChunkPos)
    ensures
        p.x as int == chunk_coord_of(wx as int),
        p.y as int == chunk_coord_of(wz as int),
        -67108864 <= p.x as int <= 67108864,
        -67108864 <= p.y as int <= 67108864,
{
    ChunkPos { x: floor_div_width(wx), y: floor_div_width(wz) }
}

proof fn lemma_push_contains<T>(s: Seq<T>, v: T, x: T)
    ensures
        s.push(v).contains(x) <==> (x == v || s.contains(x)),
{
    if s.push(v).contains(x) {
        let i = choose|i: int| 0 <= i < s.push(v).len() && s.push(v)[i] == x;
        if i < s.len() {
            assert(s[i] == x);
        }
    }
    if s.contains(x) {
        let i = choose|i: int| 0 <= i < s.len() && s[i] == x;
        assert(s.push(v)[i] == x);
    }
    assert(s.push(v)[s.len() as int] == v);
}

/// Compute the streaming work for an observer at world position
/// `(wx, wz)`: the window coordinates not yet resident. While the
/// observer's chunk coordinate is unchanged since the last plan, no
/// work is planned; otherwise the last coordinate is updated and every
/// required-but-absent coordinate is returned, each exactly once.
pub fn plan_chunks(world: &VoxelWorld, last: &mut LastChunkPos, wx: i32, wz: i32) -> (todo: Vec<
    ChunkPos,
>)
    requires
        world.wf(),
    ensures
        final(last).0.x as int == chunk_coord_of(wx as int),
        final(last).0.y as int == chunk_coord_of(wz as int),
        final(last).0 == old(last).0 ==> todo@.len() == 0,
        final(last).0 != old(last).0 ==> forall|p: ChunkPos|
            #[trigger] todo@.contains(p) <==> (in_window(final(last).0, p) && !world.has_chunk(
                p,
            )),
        forall|i: int, j: int| 0 <= i < j < todo@.len() ==> todo@[i] != todo@[j],
{
    let center = observer_chunk(wx, wz);
    if center == last.0 {
        return Vec::new();
    }
    last.0 = center;
    let mut todo: Vec<ChunkPos> = Vec::new();
    let y_end = center.y + RENDER_DISTANCE;
    let x_end = center.x + RENDER_DISTANCE;
    let mut y = center.y - RENDER_DISTANCE;
    while y < y_end
        invariant
            world.wf(),
            center.y - RENDER_DISTANCE <= y <= y_end,
            y_end == center.y + RENDER_DISTANCE,
            x_end == center.x + RENDER_DISTANCE,
            -67108864 <= center.x as int <= 67108864,
            -67108864 <= center.y as int <= 67108864,
            forall|p: ChunkPos|
                #[trigger] todo@.contains(p) <==> (in_window(center, p) && !world.has_chunk(p)
                    && (p.y as int) < (y as int)),
            forall|i: int, j: int| 0 <= i < j < todo@.len() ==> todo@[i] != todo@[j],
        decreases y_end - y,
    {
        let mut x = center.x - RENDER_DISTANCE;
        while x < x_end
            invariant
                world.wf(),
                center.x - RENDER_DISTANCE <= x <= x_end,
                center.y - RENDER_DISTANCE <= y < y_end,
                y_end == center.y + RENDER_DISTANCE,
                x_end == center.x + RENDER_DISTANCE,
                -67108864 <= center.x as int <= 67108864,
                -67108864 <= center.y as int <= 67108864,
                forall|p: ChunkPos|
                    #[trigger] todo@.contains(p) <==> (in_window(center, p) && !world.has_chunk(
                        p,
                    ) && ((p.y as int) < (y as int) || (p.y as int == y as int && (p.x as int)
                        < (x as int)))),
                forall|i: int, j: int| 0 <= i < j < todo@.len() ==> todo@[i] != todo@[j],
            decreases x_end - x,
        {
            let np = ChunkPos { x, y };
            let present = match world.get(np) {
                Some(_) => true,
                None => false,
            };
            if !present {
                let ghost before = todo@;
                todo.push(np);
                proof {
                    assert forall|p: ChunkPos|
                        #[trigger] todo@.contains(p) <==> (p == np || before.contains(p)) by {
                        lemma_push_contains(before, np, p);
                    };
                    assert(!before.contains(np));
                }
            }
            x = x + 1;
        }
        y = y + 1;
    }
    todo
}

/// What committing one chunk hands to the external renderer: the chunk
/// coordinate, the world-space translation of the chunk's origin, and
/// the extracted mesh buffers.
pub struct RenderRequest {
    pub pos: ChunkPos,
    pub world_x: i64,
    pub world_z: i64,
    pub mesh: ChunkMesh,
}

impl VoxelWorld {
    /// Make the chunk at `p` resident — generating it from the given
    /// heights if absent — and extract its mesh and world transform
    /// for the renderer.
    pub fn commit_chunk(&mut self, p: ChunkPos, heights: &Vec<u8>) -> (req: RenderRequest)
        requires
            old(self).wf(),
            heights@.len() == COLUMNS as nat,
        ensures
            final(self).wf(),
            final(self).spec_seed() == old(self).spec_seed(),
            final(self).has_chunk(p),
            final(self).chunk_view(p) == if old(self).has_chunk(p) {
                old(self).chunk_view(p)
            } else {
                generated_voxels(heights@)
            },
            forall|q: ChunkPos|
                q != p ==> (final(self).has_chunk(q) <==> old(self).has_chunk(q)),
            forall|q: ChunkPos|
                q != p && old(self).has_chunk(q) ==> final(self).chunk_view(q) == old(
                    self,
                ).chunk_view(q),
            req.pos == p,
            req.world_x == (p.x as int) * (CHUNK_WIDTH as int),
            req.world_z == (p.y as int) * (CHUNK_WIDTH as int),
            req.mesh.positions@ == mesh_positions(final(self).chunk_view(p)),
            req.mesh.indices@ == mesh_indices(final(self).chunk_view(p)),
    {
        self.ensure_generated(p, heights);
        let m: ChunkMesh = match self.get(p) {
            Some(c) => c.mesh(),
            None => {
                proof {
                    assert(false);
                }
                vstd::pervasive::unreached()
            },
        };
        let world_x = (p.x as i64) * (CHUNK_WIDTH as i64);
        let world_z = (p.y as i64) * (CHUNK_WIDTH as i64);
        RenderRequest { pos: p, world_x, world_z, mesh: m }
    }

    /// Commit every planned coordinate, handing back one render request
    /// per coordinate, in order.
    pub fn commit_all(&mut self, todo: &Vec<ChunkPos>, heightmaps: &Vec<Vec<u8>>) -> (reqs: Vec<
        RenderRequest,
    >)
        requires
            old(self).wf(),
            heightmaps@.len() == todo@.len(),
            forall|i: int|
                0 <= i < heightmaps@.len() ==> (#[trigger] heightmaps@[i])@.len()
                    == COLUMNS as nat,
            forall|i: int, j: int| 0 <= i < j < todo@.len() ==> todo@[i] != todo@[j],
        ensures
            final(self).wf(),
            final(self).spec_seed() == old(self).spec_seed(),
            forall|q: ChunkPos|
                final(self).has_chunk(q) <==> (old(self).has_chunk(q) || todo@.contains(q)),
            forall|q: ChunkPos|
                old(self).has_chunk(q) ==> final(self).chunk_view(q) == old(self).chunk_view(q),
            forall|i: int|
                0 <= i < todo@.len() && !old(self).has_chunk(todo@[i])
                    ==> final(self).chunk_view(#[trigger] todo@[i])
                    == generated_voxels(heightmaps@[i]@),
            reqs@.len() == todo@.len(),
            forall|i: int|
                0 <= i < reqs@.len() ==> {
                    let req = #[trigger] reqs@[i];
                    &&& req.pos == todo@[i]
                    &&& req.world_x == (todo@[i].x as int) * (CHUNK_WIDTH as int)
                    &&& req.world_z == (todo@[i].y as int) * (CHUNK_WIDTH as int)
                    &&& req.mesh.positions@ == mesh_positions(final(self).chunk_view(todo@[i]))
                    &&& req.mesh.indices@ == mesh_indices(final(self).chunk_view(todo@[i]))
                },
    {
        let mut reqs: Vec<RenderRequest> = Vec::new();
        let mut i: usize = 0;
        while i < todo.len()
            invariant
                self.wf(),
                self.spec_seed() == old(self).spec_seed(),
                i <= todo@.len(),
                heightmaps@.len() == todo@.len(),
                forall|k: int|
                    0 <= k < heightmaps@.len() ==> (#[trigger] heightmaps@[k])@.len()
                        == COLUMNS as nat,
                forall|i2: int, j2: int| 0 <= i2 < j2 < todo@.len() ==> todo@[i2] != todo@[j2],
                forall|q: ChunkPos|
                    self.has_chunk(q) <==> (old(self).has_chunk(q) || exists|j: int|
                        0 <= j < i as int && todo@[j] == q),
                forall|q: ChunkPos|
                    old(self).has_chunk(q) ==> self.chunk_view(q) == old(self).chunk_view(q),
                forall|k: int|
                    0 <= k < i as int && !old(self).has_chunk(todo@[k]) ==> self.chunk_view(
                        #[trigger] todo@[k],
                    ) == generated_voxels(heightmaps@[k]@),
                reqs@.len() == i as nat,
                forall|k: int|
                    0 <= k < reqs@.len() ==> {
                        let req = #[trigger] reqs@[k];
                        &&& req.pos == todo@[k]
                        &&& req.world_x == (todo@[k].x as int) * (CHUNK_WIDTH as int)
                        &&& req.world_z == (todo@[k].y as int) * (CHUNK_WIDTH as int)
                        &&& req.mesh.positions@ == mesh_positions(self.chunk_view(todo@[k]))
                        &&& req.mesh.indices@ == mesh_indices(self.chunk_view(todo@[k]))
                    },
            decreases todo@.len() - i,
        {
            let ghost w0 = *self;
            let req = self.commit_chunk(todo[i], &heightmaps[i]);
            reqs.push(req);
            proof {
                let p = todo@[i as int];
                assert forall|q: ChunkPos|
                    self.has_chunk(q) <==> (old(self).has_chunk(q) || exists|j: int|
                        0 <= j < i as int + 1 && todo@[j] == q) by {
                    if q == p {
                        assert(todo@[i as int] == q);
                    } else {
                        assert(self.has_chunk(q) <==> w0.has_chunk(q));
                        if exists|j: int| 0 <= j < i as int + 1 && todo@[j] == q {
                            let j = choose|j: int| 0 <= j < i as int + 1 && todo@[j] == q;
                            assert(j < i as int);
                        }
                    }
                };
                assert forall|q: ChunkPos|
                    old(self).has_chunk(q) implies self.chunk_view(q) == old(self).chunk_view(
                    q,
                ) by {
                    assert(w0.has_chunk(q));
                };
                if w0.has_chunk(p) && !old(self).has_chunk(p) {
                    let j = choose|j: int| 0 <= j < i as int && todo@[j] == p;
                    assert(false);
                }
                assert forall|k: int|
                    0 <= k < i as int + 1 && !old(self).has_chunk(todo@[k]) implies self.chunk_view(
                    #[trigger] todo@[k],
                ) == generated_voxels(heightmaps@[k]@) by {
                    if k < i as int {
                        assert(todo@[k] != p);
                        assert(0 <= k < i as int && todo@[k] == todo@[k]);
                        assert(w0.has_chunk(todo@[k]));
                    }
                };
                assert forall|k: int|
                    0 <= k < reqs@.len() implies {
                        let r = #[trigger] reqs@[k];
                        &&& r.pos == todo@[k]
                        &&& r.world_x == (todo@[k].x as int) * (CHUNK_WIDTH as int)
                        &&& r.world_z == (todo@[k].y as int) * (CHUNK_WIDTH as int)
                        &&& r.mesh.positions@ == mesh_positions(self.chunk_view(todo@[k]))
                        &&& r.mesh.indices@ == mesh_indices(self.chunk_view(todo@[k]))
                    } by {
                    if k < i as int {
                        assert(todo@[k] != p);
                        assert(0 <= k < i as int && todo@[k] == todo@[k]);
                        assert(w0.has_chunk(todo@[k]));
                        assert(self.chunk_view(todo@[k]) == w0.chunk_view(todo@[k]));
                    }
                };
            }
            i = i + 1;
        }
        proof {
            assert forall|q: ChunkPos|
                self.has_chunk(q) <==> (old(self).has_chunk(q) || todo@.contains(q)) by {
                if todo@.contains(q) {
                    let j = choose|j: int| 0 <= j < todo@.len() && todo@[j] == q;
                    assert(exists|k: int| 0 <= k < i as int && todo@[k] == q);
                }
                if exists|k: int| 0 <= k < i as int && todo@[k] == q {
                    let k = choose|k: int| 0 <= k < i as int && todo@[k] == q;
                    assert(todo@[k] == q);
                }
            };
        }
        reqs
    }
}

/// Streaming window coverage: once every coordinate that
/// [`plan_chunks`] reported missing has been committed, the store holds
/// every coordinate of the window around the observer chunk.
pub proof fn lemma_window_coverage(
    w0: VoxelWorld,
    w1: VoxelWorld,
    center: ChunkPos,
    todo: Seq<ChunkPos>,
)
    requires
        forall|p: ChunkPos|
            #[trigger] todo.contains(p) <==> (in_window(center, p) && !w0.has_chunk(p)),
        forall|p: ChunkPos| #[trigger] w1.has_chunk(p) <==> (w0.has_chunk(p) || todo.contains(p)),
    ensures
        forall|p: ChunkPos| in_window(center, p) ==> #[trigger] w1.has_chunk(p),
{
}

} // verus!
