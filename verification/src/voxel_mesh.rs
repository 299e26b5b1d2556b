use vstd::prelude::*;

use crate::blocks::{
    block_at, cell_in_bounds, cell_index, grid_ids_valid, id_transparent, BlockDefintion,
    ChunkData, ChunkId, CHUNK_HEIGHT, CHUNK_WIDTH,
};
use crate::direction::AbsolouteDirection;
use crate::quad::{
    emit_face, face_at, face_fits, face_vertex, indices_for, lemma_face_step, lemma_face_winding,
    lemma_indices_for_valid, lemma_vertices_of_concat, lemma_vertices_of_index,
    lemma_vertices_of_len, opt_face, outward_normal, triangle_normal, vertices_of, FaceData,
};
use crate::voxel::{Pos3, Voxel, VoxelVertex};

verus! {

/// A chunk's triangle mesh: the flat vertex buffer and the quad index
/// buffer that the outside renderer uploads.
pub struct VoxelMesh {
    pub verts: Vec<VoxelVertex>,
    pub indices: Vec<u32>,
}

/// The x position, in voxel-grid units, of local column `x` of chunk `cid`.
pub open spec fn world_x(cid: ChunkId, x: int) -> int {
    cid.x * CHUNK_WIDTH as int + x
}

/// The z position, in voxel-grid units, of local column `z` of chunk `cid`.
pub open spec fn world_z(cid: ChunkId, z: int) -> int {
    cid.z * CHUNK_WIDTH as int + z
}

/// Whether the face of the block at `(x, y, z)` toward `dir` is visible:
/// the neighbor one step that way is outside the grid (chunk-edge faces are
/// always drawn), or is a transparent block.
pub open spec fn face_visible(
    g: Seq<usize>,
    reg: Seq<BlockDefintion>,
    x: int,
    y: int,
    z: int,
    dir: AbsolouteDirection,
) -> bool {
    let nx = x + dir.offset_x();
    let ny = y + dir.offset_y();
    let nz = z + dir.offset_z();
    !cell_in_bounds(nx, ny, nz) || id_transparent(reg, block_at(g, nx, ny, nz))
}

/// The face of the block at local cell `(x, y, z)` of chunk `cid` toward
/// `dir`, tagged with the block's registry color and its id.
pub open spec fn cell_face(
    cid: ChunkId,
    g: Seq<usize>,
    reg: Seq<BlockDefintion>,
    x: int,
    y: int,
    z: int,
    dir: AbsolouteDirection,
) -> FaceData {
    FaceData {
        dir,
        x: world_x(cid, x),
        y: y,
        z: world_z(cid, z),
        color: reg[block_at(g, x, y, z) as int].color,
        block_id: block_at(g, x, y, z) as u32,
    }
}

/// The faces the mesher emits for local cell `(x, y, z)`: none if its block
/// is transparent, else one face for each visible side, in the fixed
/// emission order west, east, south, north, bottom, top.
pub open spec fn cell_faces(
    cid: ChunkId,
    g: Seq<usize>,
    reg: Seq<BlockDefintion>,
    x: int,
    y: int,
    z: int,
) -> Seq<FaceData> {
    if id_transparent(reg, block_at(g, x, y, z)) {
        Seq::empty()
    } else {
        opt_face(
            face_visible(g, reg, x, y, z, AbsolouteDirection::West),
            cell_face(cid, g, reg, x, y, z, AbsolouteDirection::West),
        ) + opt_face(
            face_visible(g, reg, x, y, z, AbsolouteDirection::East),
            cell_face(cid, g, reg, x, y, z, AbsolouteDirection::East),
        ) + opt_face(
            face_visible(g, reg, x, y, z, AbsolouteDirection::South),
            cell_face(cid, g, reg, x, y, z, AbsolouteDirection::South),
        ) + opt_face(
            face_visible(g, reg, x, y, z, AbsolouteDirection::North),
            cell_face(cid, g, reg, x, y, z, AbsolouteDirection::North),
        ) + opt_face(
            face_visible(g, reg, x, y, z, AbsolouteDirection::Down),
            cell_face(cid, g, reg, x, y, z, AbsolouteDirection::Down),
        ) + opt_face(
            face_visible(g, reg, x, y, z, AbsolouteDirection::Up),
            cell_face(cid, g, reg, x, y, z, AbsolouteDirection::Up),
        )
    }
}

/// The faces of cells `(x, y, 0)` through `(x, y, n - 1)`, in order.
pub open spec fn row_faces(
    cid: ChunkId,
    g: Seq<usize>,
    reg: Seq<BlockDefintion>,
    x: int,
    y: int,
    n: int,
) -> Seq<FaceData>
    decreases n,
{
    if n <= 0 {
        Seq::empty()
    } else {
        row_faces(cid, g, reg, x, y, n - 1) + cell_faces(cid, g, reg, x, y, n - 1)
    }
}

/// The faces of rows `(x, 0, _)` through `(x, n - 1, _)`, in order.
pub open spec fn slice_faces(
    cid: ChunkId,
    g: Seq<usize>,
    reg: Seq<BlockDefintion>,
    x: int,
    n: int,
) -> Seq<FaceData>
    decreases n,
{
    if n <= 0 {
        Seq::empty()
    } else {
        slice_faces(cid, g, reg, x, n - 1) + row_faces(cid, g, reg, x, n - 1, CHUNK_WIDTH as int)
    }
}

/// The faces of the first `n` x slices of the grid, in order.
pub open spec fn grid_faces(
    cid: ChunkId,
    g: Seq<usize>,
    reg: Seq<BlockDefintion>,
    n: int,
) -> Seq<FaceData>
    decreases n,
{
    if n <= 0 {
        Seq::empty()
    } else {
        grid_faces(cid, g, reg, n - 1) + slice_faces(cid, g, reg, n - 1, CHUNK_HEIGHT as int)
    }
}

/// Every face the mesher emits for chunk `cid` over grid `g` with registry
/// `reg`, in traversal order: x outermost, then y, then z.
pub open spec fn mesh_faces(cid: ChunkId, g: Seq<usize>, reg: Seq<BlockDefintion>) -> Seq<
    FaceData,
> {
    grid_faces(cid, g, reg, CHUNK_WIDTH as int)
}

/// A cell emits at most six faces.
pub proof fn lemma_cell_faces_len(
    cid: ChunkId,
    g: Seq<usize>,
    reg: Seq<BlockDefintion>,
    x: int,
    y: int,
    z: int,
)
    ensures
        cell_faces(cid, g, reg, x, y, z).len() <= 6,
{
}

/// A row of `n` cells emits at most `6n` faces.
pub proof fn lemma_row_faces_len(
    cid: ChunkId,
    g: Seq<usize>,
    reg: Seq<BlockDefintion>,
    x: int,
    y: int,
    n: int,
)
    requires
        0 <= n,
    ensures
        row_faces(cid, g, reg, x, y, n).len() <= 6 * n,
    decreases n,
{
    if n > 0 {
        lemma_row_faces_len(cid, g, reg, x, y, n - 1);
        lemma_cell_faces_len(cid, g, reg, x, y, n - 1);
    }
}

/// A slice of `n` rows emits at most `96n` faces.
pub proof fn lemma_slice_faces_len(
    cid: ChunkId,
    g: Seq<usize>,
    reg: Seq<BlockDefintion>,
    x: int,
    n: int,
)
    requires
        0 <= n,
    ensures
        slice_faces(cid, g, reg, x, n).len() <= 96 * n,
    decreases n,
{
    if n > 0 {
        lemma_slice_faces_len(cid, g, reg, x, n - 1);
        lemma_row_faces_len(cid, g, reg, x, n - 1, CHUNK_WIDTH as int);
    }
}

/// The first `n` slices emit at most `12288n` faces.
pub proof fn lemma_grid_faces_len(cid: ChunkId, g: Seq<usize>, reg: Seq<BlockDefintion>, n: int)
    requires
        0 <= n,
    ensures
        grid_faces(cid, g, reg, n).len() <= 12288 * n,
    decreases n,
{
    if n > 0 {
        lemma_grid_faces_len(cid, g, reg, n - 1);
        lemma_slice_faces_len(cid, g, reg, n - 1, CHUNK_HEIGHT as int);
    }
}


/// The index sequence `ixs` with `off` added to each entry.
pub open spec fn shift_indices(ixs: Seq<u32>, off: int) -> Seq<u32> {
    ixs.map_values(|i: u32| (i + off) as u32)
}

/// The concatenated vertices of a sequence of voxels, in order.
pub open spec fn voxels_verts(vs: Seq<Voxel>) -> Seq<VoxelVertex>
    decreases vs.len(),
{
    if vs.len() == 0 {
        Seq::empty()
    } else {
        voxels_verts(vs.drop_last()) + vs.last().vertices@
    }
}

/// The concatenated indices of a sequence of voxels, each voxel's indices
/// shifted by the number of vertices of the voxels before it.
pub open spec fn voxels_indices(vs: Seq<Voxel>) -> Seq<u32>
    decreases vs.len(),
{
    if vs.len() == 0 {
        Seq::empty()
    } else {
        voxels_indices(vs.drop_last()) + shift_indices(
            vs.last().indices@,
            voxels_verts(vs.drop_last()).len() as int,
        )
    }
}

/// Taking one more voxel appends its vertices, and its indices shifted by
/// the vertices taken so far.
pub proof fn lemma_voxels_take_step(vs: Seq<Voxel>, n: int)
    requires
        0 <= n < vs.len(),
    ensures
        voxels_verts(vs.take(n + 1)) == voxels_verts(vs.take(n)) + vs[n].vertices@,
        voxels_indices(vs.take(n + 1)) == voxels_indices(vs.take(n)) + shift_indices(
            vs[n].indices@,
            voxels_verts(vs.take(n)).len() as int,
        ),
{
    assert(vs.take(n + 1).drop_last() =~= vs.take(n));
    assert(vs.take(n + 1).last() == vs[n]);
}

/// A prefix of a voxel sequence carries at most as many vertices as the
/// whole sequence.
pub proof fn lemma_voxels_verts_take_len(vs: Seq<Voxel>, n: int)
    requires
        0 <= n <= vs.len(),
    ensures
        voxels_verts(vs.take(n)).len() <= voxels_verts(vs).len(),
    decreases vs.len() - n,
{
    if n == vs.len() {
        assert(vs.take(n) =~= vs);
    } else {
        lemma_voxels_take_step(vs, n);
        lemma_voxels_verts_take_len(vs, n + 1);
    }
}

impl VoxelMesh {
    /// Structural well-formedness of a mesh: whole quads, six indices per
    /// quad, and every index referencing an existing vertex.
    pub open spec fn wf(&self) -> bool {
        &&& self.verts@.len() % 4 == 0
        &&& self.indices@.len() * 4 == self.verts@.len() * 6
        &&& forall|i: int|
            0 <= i < self.indices@.len() ==> (self.indices@[i] as int) < self.verts@.len()
    }

    /// The number of indices of this mesh.
    pub fn get_num_indices(&self) -> (r: u32)
        requires
            self.indices@.len() <= u32::MAX,
        ensures
            r == self.indices@.len(),
    {
        self.indices.len() as u32
    }

    /// Wraps one voxel's buffers as a mesh of their own.
    pub fn from_voxel(voxel: Voxel) -> (r: VoxelMesh)
        ensures
            r.verts@ == voxel.vertices@,
            r.indices@ == voxel.indices@,
    {
        let indices = voxel.indices;
        let verts = voxel.vertices;
        VoxelMesh { verts, indices }
    }

    /// Concatenates the meshes of several voxels into one: all their
    /// vertices in order, and each voxel's indices shifted by the number of
    /// vertices that came before it.
    #[verifier::loop_isolation(false)]
    pub fn from_voxels(voxels: &[Voxel]) -> (r: VoxelMesh)
        requires
            forall|k: int| 0 <= k < voxels@.len() ==> (#[trigger] voxels@[k]).wf(),
            voxels_verts(voxels@).len() <= u32::MAX,
        ensures
            r.verts@ == voxels_verts(voxels@),
            r.indices@ == voxels_indices(voxels@),
            forall|i: int| 0 <= i < r.indices@.len() ==> (r.indices@[i] as int) < r.verts@.len(),
    {
        let mut verts: Vec<VoxelVertex> = Vec::new();
        let mut indices: Vec<u32> = Vec::new();
        let mut vi: usize = 0;
        proof {
            assert(verts@ =~= voxels_verts(voxels@.take(0)));
            assert(indices@ =~= voxels_indices(voxels@.take(0)));
        }
        while vi < voxels.len()
            invariant
                vi <= voxels@.len(),
                verts@ == voxels_verts(voxels@.take(vi as int)),
                indices@ == voxels_indices(voxels@.take(vi as int)),
                forall|i: int|
                    0 <= i < indices@.len() ==> (#[trigger] indices@[i] as int) < verts@.len(),
            decreases voxels@.len() - vi,
        {
            let vox = &voxels[vi];
            proof {
                lemma_voxels_verts_take_len(voxels@, vi as int + 1);
                lemma_voxels_take_step(voxels@, vi as int);
            }
            let offset = verts.len() as u32;
            let ghost verts_before = verts@;
            let mut j: usize = 0;
            proof {
                assert(verts@ =~= verts_before + vox.vertices@.take(0));
            }
            while j < vox.vertices.len()
                invariant
                    j <= vox.vertices@.len(),
                    verts@ == verts_before + vox.vertices@.take(j as int),
                decreases vox.vertices@.len() - j,
            {
                verts.push(vox.vertices[j]);
                proof {
                    assert(verts@ =~= verts_before + vox.vertices@.take(j as int + 1));
                }
                j = j + 1;
            }
            proof {
                assert(vox.vertices@.take(vox.vertices@.len() as int) =~= vox.vertices@);
            }
            let ghost indices_before = indices@;
            let mut j: usize = 0;
            proof {
                assert(indices@ =~= indices_before + shift_indices(
                    vox.indices@.take(0),
                    offset as int,
                ));
            }
            while j < vox.indices.len()
                invariant
                    j <= vox.indices@.len(),
                    verts@ == verts_before + vox.vertices@,
                    indices@ == indices_before + shift_indices(
                        vox.indices@.take(j as int),
                        offset as int,
                    ),
                decreases vox.indices@.len() - j,
            {
                indices.push(vox.indices[j] + offset);
                proof {
                    assert(indices@ =~= indices_before + shift_indices(
                        vox.indices@.take(j as int + 1),
                        offset as int,
                    ));
                }
                j = j + 1;
            }
            proof {
                assert(vox.indices@.take(vox.indices@.len() as int) =~= vox.indices@);
            }
            vi = vi + 1;
        }
        proof {
            assert(voxels@.take(voxels@.len() as int) =~= voxels@);
        }
        VoxelMesh { verts, indices }
    }

    /// Builds the culled face mesh of one chunk: every face of an opaque
    /// block that borders a transparent block or the grid edge becomes four
    /// vertices and six indices, traversing the grid over x, then y, then z.
    #[verifier::loop_isolation(false)]
    #[verifier::rlimit(80)]
    #[verifier::spinoff_prover]
    pub fn from_blocks(
        chunk_id: &ChunkId,
        blocks: &ChunkData,
        registry: &Vec<BlockDefintion>,
    ) -> (r: VoxelMesh)
        requires
            blocks.wf(),
            grid_ids_valid(blocks@, registry@.len() as int),
        ensures
            r.verts@ == vertices_of(mesh_faces(*chunk_id, blocks@, registry@)),
            r.indices@ == indices_for(mesh_faces(*chunk_id, blocks@, registry@).len() as int),
            r.wf(),
    {
        let ghost cid = *chunk_id;
        let ghost g = blocks@;
        let ghost reg = registry@;
        let mut verts: Vec<VoxelVertex> = Vec::new();
        let mut indices: Vec<u32> = Vec::new();
        proof {
            assert(verts@ =~= vertices_of(grid_faces(cid, g, reg, 0)));
            assert(indices@ =~= indices_for(0));
        }
        let mut x: usize = 0;
        while x < CHUNK_WIDTH
            invariant
                x <= CHUNK_WIDTH,
                blocks.wf(),
                grid_ids_valid(blocks@, registry@.len() as int),
                verts@ == vertices_of(grid_faces(*chunk_id, blocks@, registry@, x as int)),
                verts@.len() == 4 * grid_faces(*chunk_id, blocks@, registry@, x as int).len(),
                indices@ == indices_for(
                    grid_faces(*chunk_id, blocks@, registry@, x as int).len() as int,
                ),
            decreases CHUNK_WIDTH - x,
        {
            let ghost gfx = grid_faces(cid, g, reg, x as int);
            let mut y: usize = 0;
            proof {
                assert(gfx + slice_faces(cid, g, reg, x as int, 0) =~= gfx);
            }
            while y < CHUNK_HEIGHT
                invariant
                    y <= CHUNK_HEIGHT,
                    x < CHUNK_WIDTH,
                    blocks.wf(),
                    grid_ids_valid(blocks@, registry@.len() as int),
                    gfx == grid_faces(*chunk_id, blocks@, registry@, x as int),
                    verts@ == vertices_of(
                        gfx + slice_faces(*chunk_id, blocks@, registry@, x as int, y as int),
                    ),
                    verts@.len() == 4 * (gfx + slice_faces(
                        *chunk_id,
                        blocks@,
                        registry@,
                        x as int,
                        y as int,
                    )).len(),
                    indices@ == indices_for(
                        (gfx + slice_faces(
                            *chunk_id,
                            blocks@,
                            registry@,
                            x as int,
                            y as int,
                        )).len() as int,
                    ),
                decreases CHUNK_HEIGHT - y,
            {
                let ghost sfy = slice_faces(cid, g, reg, x as int, y as int);
                let mut z: usize = 0;
                proof {
                    assert((gfx + sfy) + row_faces(cid, g, reg, x as int, y as int, 0) =~= gfx
                        + sfy);
                }
                while z < CHUNK_WIDTH
                    invariant
                        z <= CHUNK_WIDTH,
                        y < CHUNK_HEIGHT,
                        x < CHUNK_WIDTH,
                        blocks.wf(),
                        grid_ids_valid(blocks@, registry@.len() as int),
                        gfx == grid_faces(*chunk_id, blocks@, registry@, x as int),
                        sfy == slice_faces(*chunk_id, blocks@, registry@, x as int, y as int),
                        verts@ == vertices_of(
                            (gfx + sfy) + row_faces(
                                *chunk_id,
                                blocks@,
                                registry@,
                                x as int,
                                y as int,
                                z as int,
                            ),
                        ),
                        verts@.len() == 4 * ((gfx + sfy) + row_faces(
                            *chunk_id,
                            blocks@,
                            registry@,
                            x as int,
                            y as int,
                            z as int,
                        )).len(),
                        indices@ == indices_for(
                            ((gfx + sfy) + row_faces(
                                *chunk_id,
                                blocks@,
                                registry@,
                                x as int,
                                y as int,
                                z as int,
                            )).len() as int,
                        ),
                    decreases CHUNK_WIDTH - z,
                {
                    let ghost done = (gfx + sfy) + row_faces(
                        cid,
                        g,
                        reg,
                        x as int,
                        y as int,
                        z as int,
                    );
                    proof {
                        lemma_grid_faces_len(cid, g, reg, x as int);
                        lemma_slice_faces_len(cid, g, reg, x as int, y as int);
                        lemma_row_faces_len(cid, g, reg, x as int, y as int, z as int);
                        assert(done.len() <= 196602);
                    }
                    emit_cell(
                        &mut verts,
                        &mut indices,
                        chunk_id,
                        blocks,
                        registry,
                        x,
                        y,
                        z,
                        Ghost(done.len() as int),
                    );
                    proof {
                        let cf = cell_faces(cid, g, reg, x as int, y as int, z as int);
                        lemma_vertices_of_concat(done, cf);
                        assert(done + cf =~= (gfx + sfy) + row_faces(
                            cid,
                            g,
                            reg,
                            x as int,
                            y as int,
                            z as int + 1,
                        ));
                    }
                    z = z + 1;
                }
                proof {
                    assert((gfx + sfy) + row_faces(cid, g, reg, x as int, y as int, CHUNK_WIDTH as int)
                        =~= gfx + slice_faces(cid, g, reg, x as int, y as int + 1));
                }
                y = y + 1;
            }
            proof {
                assert(gfx + slice_faces(cid, g, reg, x as int, CHUNK_HEIGHT as int)
                    =~= grid_faces(cid, g, reg, x as int + 1));
            }
            x = x + 1;
        }
        proof {
            lemma_grid_faces_len(cid, g, reg, CHUNK_WIDTH as int);
            lemma_indices_for_valid(mesh_faces(cid, g, reg).len() as int);
        }
        VoxelMesh { verts, indices }
    }
}

/// Appends the faces of cell `(x, y, z)` to the buffers: nothing if its
/// block is transparent, else one face per visible side, each face adding
/// four vertices and six indices. `k` is the number of faces already in the
/// buffers.
#[verifier::rlimit(80)]
#[verifier::spinoff_prover]
fn emit_cell(
    verts: &mut Vec<VoxelVertex>,
    indices: &mut Vec<u32>,
    chunk_id: &ChunkId,
    blocks: &ChunkData,
    registry: &Vec<BlockDefintion>,
    x: usize,
    y: usize,
    z: usize,
    Ghost(k): Ghost<int>,
)
    requires
        blocks.wf(),
        grid_ids_valid(blocks@, registry@.len() as int),
        cell_in_bounds(x as int, y as int, z as int),
        old(verts)@.len() == 4 * k,
        old(verts)@.len() + 24 <= u32::MAX,
        old(indices)@ == indices_for(k),
    ensures
        final(verts)@ == old(verts)@ + vertices_of(
            cell_faces(*chunk_id, blocks@, registry@, x as int, y as int, z as int),
        ),
        final(verts)@.len() == old(verts)@.len() + 4 * cell_faces(
            *chunk_id,
            blocks@,
            registry@,
            x as int,
            y as int,
            z as int,
        ).len(),
        final(indices)@ == indices_for(
            k + cell_faces(*chunk_id, blocks@, registry@, x as int, y as int, z as int).len(),
        ),
{
    let ghost g = blocks@;
    let ghost reg = registry@;
    let ghost cid = *chunk_id;
    let ghost prefix = verts@;
    let block = blocks.get(x, y, z);
    proof {
        assert(0 <= cell_index(x as int, y as int, z as int) < g.len());
        assert(block < registry@.len());
    }
    let def = registry[block];
    if def.transparency {
        proof {
            assert(cell_faces(cid, g, reg, x as int, y as int, z as int)
                =~= Seq::<FaceData>::empty());
            assert(prefix + vertices_of(cell_faces(cid, g, reg, x as int, y as int, z as int))
                =~= prefix);
        }
        return;
    }
    let vis_west = if x == 0 {
        true
    } else {
        let nb = blocks.get(x - 1, y, z);
        proof {
            assert(0 <= cell_index(x as int - 1, y as int, z as int) < g.len());
            assert(nb < registry@.len());
        }
        registry[nb].transparency
    };
    proof {
        assert(vis_west == face_visible(g, reg, x as int, y as int, z as int,
            AbsolouteDirection::West));
    }
    let vis_east = if x == CHUNK_WIDTH - 1 {
        true
    } else {
        let nb = blocks.get(x + 1, y, z);
        proof {
            assert(0 <= cell_index(x as int + 1, y as int, z as int) < g.len());
            assert(nb < registry@.len());
        }
        registry[nb].transparency
    };
    proof {
        assert(vis_east == face_visible(g, reg, x as int, y as int, z as int,
            AbsolouteDirection::East));
    }
    let vis_south = if z == 0 {
        true
    } else {
        let nb = blocks.get(x, y, z - 1);
        proof {
            assert(0 <= cell_index(x as int, y as int, z as int - 1) < g.len());
            assert(nb < registry@.len());
        }
        registry[nb].transparency
    };
    proof {
        assert(vis_south == face_visible(g, reg, x as int, y as int, z as int,
            AbsolouteDirection::South));
    }
    let vis_north = if z == CHUNK_WIDTH - 1 {
        true
    } else {
        let nb = blocks.get(x, y, z + 1);
        proof {
            assert(0 <= cell_index(x as int, y as int, z as int + 1) < g.len());
            assert(nb < registry@.len());
        }
        registry[nb].transparency
    };
    proof {
        assert(vis_north == face_visible(g, reg, x as int, y as int, z as int,
            AbsolouteDirection::North));
    }
    let vis_down = if y == 0 {
        true
    } else {
        let nb = blocks.get(x, y - 1, z);
        proof {
            assert(0 <= cell_index(x as int, y as int - 1, z as int) < g.len());
            assert(nb < registry@.len());
        }
        registry[nb].transparency
    };
    proof {
        assert(vis_down == face_visible(g, reg, x as int, y as int, z as int,
            AbsolouteDirection::Down));
    }
    let vis_up = if y == CHUNK_HEIGHT - 1 {
        true
    } else {
        let nb = blocks.get(x, y + 1, z);
        proof {
            assert(0 <= cell_index(x as int, y as int + 1, z as int) < g.len());
            assert(nb < registry@.len());
        }
        registry[nb].transparency
    };
    proof {
        assert(vis_up == face_visible(g, reg, x as int, y as int, z as int,
            AbsolouteDirection::Up));
    }
    let wx = (chunk_id.x as i64) * (CHUNK_WIDTH as i64) + (x as i64);
    let wy = y as i64;
    let wz = (chunk_id.z as i64) * (CHUNK_WIDTH as i64) + (z as i64);
    let pos = Pos3 { x: wx, y: wy, z: wz };
    let bid = block as u32;
    let color = def.color;
    let ghost mut fs = Seq::<FaceData>::empty();
    proof {
        assert(verts@ =~= prefix + vertices_of(fs));
    }
    let ghost vs_before = verts@;
    proof {
        lemma_vertices_of_len(fs);
    }
    if vis_west {
        emit_face(
            verts,
            indices,
            AbsolouteDirection::West,
            pos,
            color,
            bid,
            Ghost(k + fs.len() as int),
        );
    }
    proof {
        assert(face_at(AbsolouteDirection::West, pos, color, bid) == cell_face(
            cid, g, reg, x as int, y as int, z as int, AbsolouteDirection::West));
        lemma_face_step(
            prefix,
            vs_before,
            verts@,
            fs,
            vis_west,
            cell_face(cid, g, reg, x as int, y as int, z as int, AbsolouteDirection::West),
        );
        fs = fs + opt_face(
            vis_west,
            cell_face(cid, g, reg, x as int, y as int, z as int, AbsolouteDirection::West),
        );
    }
    let ghost vs_before = verts@;
    proof {
        lemma_vertices_of_len(fs);
    }
    if vis_east {
        emit_face(
            verts,
            indices,
            AbsolouteDirection::East,
            pos,
            color,
            bid,
            Ghost(k + fs.len() as int),
        );
    }
    proof {
        assert(face_at(AbsolouteDirection::East, pos, color, bid) == cell_face(
            cid, g, reg, x as int, y as int, z as int, AbsolouteDirection::East));
        lemma_face_step(
            prefix,
            vs_before,
            verts@,
            fs,
            vis_east,
            cell_face(cid, g, reg, x as int, y as int, z as int, AbsolouteDirection::East),
        );
        fs = fs + opt_face(
            vis_east,
            cell_face(cid, g, reg, x as int, y as int, z as int, AbsolouteDirection::East),
        );
    }
    let ghost vs_before = verts@;
    proof {
        lemma_vertices_of_len(fs);
    }
    if vis_south {
        emit_face(
            verts,
            indices,
            AbsolouteDirection::South,
            pos,
            color,
            bid,
            Ghost(k + fs.len() as int),
        );
    }
    proof {
        assert(face_at(AbsolouteDirection::South, pos, color, bid) == cell_face(
            cid, g, reg, x as int, y as int, z as int, AbsolouteDirection::South));
        lemma_face_step(
            prefix,
            vs_before,
            verts@,
            fs,
            vis_south,
            cell_face(cid, g, reg, x as int, y as int, z as int, AbsolouteDirection::South),
        );
        fs = fs + opt_face(
            vis_south,
            cell_face(cid, g, reg, x as int, y as int, z as int, AbsolouteDirection::South),
        );
    }
    let ghost vs_before = verts@;
    proof {
        lemma_vertices_of_len(fs);
    }
    if vis_north {
        emit_face(
            verts,
            indices,
            AbsolouteDirection::North,
            pos,
            color,
            bid,
            Ghost(k + fs.len() as int),
        );
    }
    proof {
        assert(face_at(AbsolouteDirection::North, pos, color, bid) == cell_face(
            cid, g, reg, x as int, y as int, z as int, AbsolouteDirection::North));
        lemma_face_step(
            prefix,
            vs_before,
            verts@,
            fs,
            vis_north,
            cell_face(cid, g, reg, x as int, y as int, z as int, AbsolouteDirection::North),
        );
        fs = fs + opt_face(
            vis_north,
            cell_face(cid, g, reg, x as int, y as int, z as int, AbsolouteDirection::North),
        );
    }
    let ghost vs_before = verts@;
    proof {
        lemma_vertices_of_len(fs);
    }
    if vis_down {
        emit_face(
            verts,
            indices,
            AbsolouteDirection::Down,
            pos,
            color,
            bid,
            Ghost(k + fs.len() as int),
        );
    }
    proof {
        assert(face_at(AbsolouteDirection::Down, pos, color, bid) == cell_face(
            cid, g, reg, x as int, y as int, z as int, AbsolouteDirection::Down));
        lemma_face_step(
            prefix,
            vs_before,
            verts@,
            fs,
            vis_down,
            cell_face(cid, g, reg, x as int, y as int, z as int, AbsolouteDirection::Down),
        );
        fs = fs + opt_face(
            vis_down,
            cell_face(cid, g, reg, x as int, y as int, z as int, AbsolouteDirection::Down),
        );
    }
    let ghost vs_before = verts@;
    proof {
        lemma_vertices_of_len(fs);
    }
    if vis_up {
        emit_face(
            verts,
            indices,
            AbsolouteDirection::Up,
            pos,
            color,
            bid,
            Ghost(k + fs.len() as int),
        );
    }
    proof {
        assert(face_at(AbsolouteDirection::Up, pos, color, bid) == cell_face(
            cid, g, reg, x as int, y as int, z as int, AbsolouteDirection::Up));
        lemma_face_step(
            prefix,
            vs_before,
            verts@,
            fs,
            vis_up,
            cell_face(cid, g, reg, x as int, y as int, z as int, AbsolouteDirection::Up),
        );
        fs = fs + opt_face(
            vis_up,
            cell_face(cid, g, reg, x as int, y as int, z as int, AbsolouteDirection::Up),
        );
    }
    proof {
        assert(fs =~= cell_faces(cid, g, reg, x as int, y as int, z as int));
        lemma_vertices_of_len(cell_faces(cid, g, reg, x as int, y as int, z as int));
    }
}


/// An element of either part is an element of a concatenation.
proof fn lemma_concat_contains(a: Seq<FaceData>, b: Seq<FaceData>, e: FaceData)
    requires
        a.contains(e) || b.contains(e),
    ensures
        (a + b).contains(e),
{
    if a.contains(e) {
        let i = choose|i: int| 0 <= i < a.len() && a[i] == e;
        assert((a + b)[i] == e);
    } else {
        let i = choose|i: int| 0 <= i < b.len() && b[i] == e;
        assert((a + b)[a.len() + i] == e);
    }
}

/// An element of a concatenation is an element of one of its parts.
proof fn lemma_concat_contains_split(a: Seq<FaceData>, b: Seq<FaceData>, e: FaceData)
    requires
        (a + b).contains(e),
    ensures
        a.contains(e) || b.contains(e),
{
    let i = choose|i: int| 0 <= i < (a + b).len() && (a + b)[i] == e;
    if i < a.len() {
        assert(a[i] == e);
    } else {
        assert(b[i - a.len()] == e);
    }
}

/// Every face a cell emits carries that cell's world position, so its
/// corner offsets stay within `i64`.
proof fn lemma_cell_faces_fit(
    cid: ChunkId,
    g: Seq<usize>,
    reg: Seq<BlockDefintion>,
    x: int,
    y: int,
    z: int,
    f: FaceData,
)
    requires
        cell_in_bounds(x, y, z),
        cell_faces(cid, g, reg, x, y, z).contains(f),
    ensures
        face_fits(f),
{
    let ow = opt_face(
        face_visible(g, reg, x, y, z, AbsolouteDirection::West),
        cell_face(cid, g, reg, x, y, z, AbsolouteDirection::West),
    );
    let oe = opt_face(
        face_visible(g, reg, x, y, z, AbsolouteDirection::East),
        cell_face(cid, g, reg, x, y, z, AbsolouteDirection::East),
    );
    let os = opt_face(
        face_visible(g, reg, x, y, z, AbsolouteDirection::South),
        cell_face(cid, g, reg, x, y, z, AbsolouteDirection::South),
    );
    let on = opt_face(
        face_visible(g, reg, x, y, z, AbsolouteDirection::North),
        cell_face(cid, g, reg, x, y, z, AbsolouteDirection::North),
    );
    let od = opt_face(
        face_visible(g, reg, x, y, z, AbsolouteDirection::Down),
        cell_face(cid, g, reg, x, y, z, AbsolouteDirection::Down),
    );
    let ou = opt_face(
        face_visible(g, reg, x, y, z, AbsolouteDirection::Up),
        cell_face(cid, g, reg, x, y, z, AbsolouteDirection::Up),
    );
    if !id_transparent(reg, block_at(g, x, y, z)) {
        lemma_concat_contains_split((((ow + oe) + os) + on) + od, ou, f);
        if ((((ow + oe) + os) + on) + od).contains(f) {
            lemma_concat_contains_split(((ow + oe) + os) + on, od, f);
            if (((ow + oe) + os) + on).contains(f) {
                lemma_concat_contains_split((ow + oe) + os, on, f);
                if ((ow + oe) + os).contains(f) {
                    lemma_concat_contains_split(ow + oe, os, f);
                    if (ow + oe).contains(f) {
                        lemma_concat_contains_split(ow, oe, f);
                    }
                }
            }
        }
    }
}

/// Every face of a row of cells fits.
proof fn lemma_row_faces_fit(
    cid: ChunkId,
    g: Seq<usize>,
    reg: Seq<BlockDefintion>,
    x: int,
    y: int,
    n: int,
    f: FaceData,
)
    requires
        0 <= x < CHUNK_WIDTH as int,
        0 <= y < CHUNK_HEIGHT as int,
        n <= CHUNK_WIDTH as int,
        row_faces(cid, g, reg, x, y, n).contains(f),
    ensures
        face_fits(f),
    decreases n,
{
    lemma_concat_contains_split(
        row_faces(cid, g, reg, x, y, n - 1),
        cell_faces(cid, g, reg, x, y, n - 1),
        f,
    );
    if row_faces(cid, g, reg, x, y, n - 1).contains(f) {
        lemma_row_faces_fit(cid, g, reg, x, y, n - 1, f);
    } else {
        lemma_cell_faces_fit(cid, g, reg, x, y, n - 1, f);
    }
}

/// Every face of a slice of rows fits.
proof fn lemma_slice_faces_fit(
    cid: ChunkId,
    g: Seq<usize>,
    reg: Seq<BlockDefintion>,
    x: int,
    n: int,
    f: FaceData,
)
    requires
        0 <= x < CHUNK_WIDTH as int,
        n <= CHUNK_HEIGHT as int,
        slice_faces(cid, g, reg, x, n).contains(f),
    ensures
        face_fits(f),
    decreases n,
{
    lemma_concat_contains_split(
        slice_faces(cid, g, reg, x, n - 1),
        row_faces(cid, g, reg, x, n - 1, CHUNK_WIDTH as int),
        f,
    );
    if slice_faces(cid, g, reg, x, n - 1).contains(f) {
        lemma_slice_faces_fit(cid, g, reg, x, n - 1, f);
    } else {
        lemma_row_faces_fit(cid, g, reg, x, n - 1, CHUNK_WIDTH as int, f);
    }
}

/// Every face a chunk's mesh holds fits within `i64` coordinates.
proof fn lemma_grid_faces_fit(
    cid: ChunkId,
    g: Seq<usize>,
    reg: Seq<BlockDefintion>,
    n: int,
    f: FaceData,
)
    requires
        n <= CHUNK_WIDTH as int,
        grid_faces(cid, g, reg, n).contains(f),
    ensures
        face_fits(f),
    decreases n,
{
    lemma_concat_contains_split(
        grid_faces(cid, g, reg, n - 1),
        slice_faces(cid, g, reg, n - 1, CHUNK_HEIGHT as int),
        f,
    );
    if grid_faces(cid, g, reg, n - 1).contains(f) {
        lemma_grid_faces_fit(cid, g, reg, n - 1, f);
    } else {
        lemma_slice_faces_fit(cid, g, reg, n - 1, CHUNK_HEIGHT as int, f);
    }
}

/// Winding consistency for a whole chunk mesh: quad number `k` of the built
/// vertex buffer is the four corners of face number `k`, and both of its
/// triangles, taken in emitted index order, wind counter-clockwise as seen
/// from outside the block: their edge cross product is the face's outward
/// normal.
pub proof fn lemma_mesh_winding(cid: ChunkId, g: Seq<usize>, reg: Seq<BlockDefintion>, k: int)
    requires
        0 <= k < mesh_faces(cid, g, reg).len(),
    ensures
        forall|i: int|
            0 <= i < 4 ==> vertices_of(mesh_faces(cid, g, reg))[4 * k + i] == face_vertex(
                mesh_faces(cid, g, reg)[k],
                i,
            ),
        triangle_normal(
            vertices_of(mesh_faces(cid, g, reg))[4 * k],
            vertices_of(mesh_faces(cid, g, reg))[4 * k + 2],
            vertices_of(mesh_faces(cid, g, reg))[4 * k + 1],
        ) == outward_normal(mesh_faces(cid, g, reg)[k].dir),
        triangle_normal(
            vertices_of(mesh_faces(cid, g, reg))[4 * k + 1],
            vertices_of(mesh_faces(cid, g, reg))[4 * k + 2],
            vertices_of(mesh_faces(cid, g, reg))[4 * k + 3],
        ) == outward_normal(mesh_faces(cid, g, reg)[k].dir),
{
    let fs = mesh_faces(cid, g, reg);
    let f = fs[k];
    assert(fs.contains(f));
    lemma_grid_faces_fit(cid, g, reg, CHUNK_WIDTH as int, f);
    lemma_vertices_of_index(fs, k, 0);
    lemma_vertices_of_index(fs, k, 1);
    lemma_vertices_of_index(fs, k, 2);
    lemma_vertices_of_index(fs, k, 3);
    lemma_face_winding(f);
}

/// Full occlusion: a block whose six neighbors all lie inside the grid and
/// are all opaque emits no faces, whatever the block itself holds.
pub proof fn lemma_occluded_cell_emits_nothing(
    cid: ChunkId,
    g: Seq<usize>,
    reg: Seq<BlockDefintion>,
    x: int,
    y: int,
    z: int,
)
    requires
        cell_in_bounds(x - 1, y, z),
        cell_in_bounds(x + 1, y, z),
        cell_in_bounds(x, y - 1, z),
        cell_in_bounds(x, y + 1, z),
        cell_in_bounds(x, y, z - 1),
        cell_in_bounds(x, y, z + 1),
        !id_transparent(reg, block_at(g, x - 1, y, z)),
        !id_transparent(reg, block_at(g, x + 1, y, z)),
        !id_transparent(reg, block_at(g, x, y - 1, z)),
        !id_transparent(reg, block_at(g, x, y + 1, z)),
        !id_transparent(reg, block_at(g, x, y, z - 1)),
        !id_transparent(reg, block_at(g, x, y, z + 1)),
    ensures
        cell_faces(cid, g, reg, x, y, z) == Seq::<FaceData>::empty(),
{
    assert(!face_visible(g, reg, x, y, z, AbsolouteDirection::West));
    assert(!face_visible(g, reg, x, y, z, AbsolouteDirection::East));
    assert(!face_visible(g, reg, x, y, z, AbsolouteDirection::South));
    assert(!face_visible(g, reg, x, y, z, AbsolouteDirection::North));
    assert(!face_visible(g, reg, x, y, z, AbsolouteDirection::Down));
    assert(!face_visible(g, reg, x, y, z, AbsolouteDirection::Up));
    assert(cell_faces(cid, g, reg, x, y, z) =~= Seq::<FaceData>::empty());
}

/// Chunk-edge faces are always drawn: an opaque block whose neighbor toward
/// `dir` falls outside the grid emits its face toward `dir`, whatever any
/// adjacent chunk holds.
pub proof fn lemma_boundary_face_emitted(
    cid: ChunkId,
    g: Seq<usize>,
    reg: Seq<BlockDefintion>,
    x: int,
    y: int,
    z: int,
    dir: AbsolouteDirection,
)
    requires
        cell_in_bounds(x, y, z),
        !id_transparent(reg, block_at(g, x, y, z)),
        !cell_in_bounds(x + dir.offset_x(), y + dir.offset_y(), z + dir.offset_z()),
    ensures
        cell_faces(cid, g, reg, x, y, z).contains(cell_face(cid, g, reg, x, y, z, dir)),
        mesh_faces(cid, g, reg).contains(cell_face(cid, g, reg, x, y, z, dir)),
{
    lemma_visible_face_emitted(cid, g, reg, x, y, z, dir);
    lemma_mesh_contains_cell_face(cid, g, reg, x, y, z, cell_face(cid, g, reg, x, y, z, dir));
}

/// Any visible face of an opaque block is among the cell's emitted faces.
pub proof fn lemma_visible_face_emitted(
    cid: ChunkId,
    g: Seq<usize>,
    reg: Seq<BlockDefintion>,
    x: int,
    y: int,
    z: int,
    dir: AbsolouteDirection,
)
    requires
        !id_transparent(reg, block_at(g, x, y, z)),
        face_visible(g, reg, x, y, z, dir),
    ensures
        cell_faces(cid, g, reg, x, y, z).contains(cell_face(cid, g, reg, x, y, z, dir)),
{
    let ow = opt_face(
        face_visible(g, reg, x, y, z, AbsolouteDirection::West),
        cell_face(cid, g, reg, x, y, z, AbsolouteDirection::West),
    );
    let oe = opt_face(
        face_visible(g, reg, x, y, z, AbsolouteDirection::East),
        cell_face(cid, g, reg, x, y, z, AbsolouteDirection::East),
    );
    let os = opt_face(
        face_visible(g, reg, x, y, z, AbsolouteDirection::South),
        cell_face(cid, g, reg, x, y, z, AbsolouteDirection::South),
    );
    let on = opt_face(
        face_visible(g, reg, x, y, z, AbsolouteDirection::North),
        cell_face(cid, g, reg, x, y, z, AbsolouteDirection::North),
    );
    let od = opt_face(
        face_visible(g, reg, x, y, z, AbsolouteDirection::Down),
        cell_face(cid, g, reg, x, y, z, AbsolouteDirection::Down),
    );
    let ou = opt_face(
        face_visible(g, reg, x, y, z, AbsolouteDirection::Up),
        cell_face(cid, g, reg, x, y, z, AbsolouteDirection::Up),
    );
    let f = cell_face(cid, g, reg, x, y, z, dir);
    assert(cell_faces(cid, g, reg, x, y, z) == ((((ow + oe) + os) + on) + od) + ou);
    match dir {
        AbsolouteDirection::West => {
            assert(ow.contains(f)) by { assert(ow[0] == f); }
            lemma_concat_contains(ow, oe, f);
            lemma_concat_contains((ow + oe), os, f);
            lemma_concat_contains(((ow + oe) + os), on, f);
            lemma_concat_contains((((ow + oe) + os) + on), od, f);
            lemma_concat_contains(((((ow + oe) + os) + on) + od), ou, f);
        },
        AbsolouteDirection::East => {
            assert(oe.contains(f)) by { assert(oe[0] == f); }
            lemma_concat_contains(ow, oe, f);
            lemma_concat_contains((ow + oe), os, f);
            lemma_concat_contains(((ow + oe) + os), on, f);
            lemma_concat_contains((((ow + oe) + os) + on), od, f);
            lemma_concat_contains(((((ow + oe) + os) + on) + od), ou, f);
        },
        AbsolouteDirection::South => {
            assert(os.contains(f)) by { assert(os[0] == f); }
            lemma_concat_contains((ow + oe), os, f);
            lemma_concat_contains(((ow + oe) + os), on, f);
            lemma_concat_contains((((ow + oe) + os) + on), od, f);
            lemma_concat_contains(((((ow + oe) + os) + on) + od), ou, f);
        },
        AbsolouteDirection::North => {
            assert(on.contains(f)) by { assert(on[0] == f); }
            lemma_concat_contains(((ow + oe) + os), on, f);
            lemma_concat_contains((((ow + oe) + os) + on), od, f);
            lemma_concat_contains(((((ow + oe) + os) + on) + od), ou, f);
        },
        AbsolouteDirection::Down => {
            assert(od.contains(f)) by { assert(od[0] == f); }
            lemma_concat_contains((((ow + oe) + os) + on), od, f);
            lemma_concat_contains(((((ow + oe) + os) + on) + od), ou, f);
        },
        AbsolouteDirection::Up => {
            assert(ou.contains(f)) by { assert(ou[0] == f); }
            lemma_concat_contains(((((ow + oe) + os) + on) + od), ou, f);
        },
    }
}

/// Every face a row's cell emits is in the row's faces.
proof fn lemma_row_contains(
    cid: ChunkId,
    g: Seq<usize>,
    reg: Seq<BlockDefintion>,
    x: int,
    y: int,
    z: int,
    n: int,
    f: FaceData,
)
    requires
        0 <= z < n,
        cell_faces(cid, g, reg, x, y, z).contains(f),
    ensures
        row_faces(cid, g, reg, x, y, n).contains(f),
    decreases n,
{
    if z == n - 1 {
        lemma_concat_contains(row_faces(cid, g, reg, x, y, n - 1), cell_faces(cid, g, reg, x, y, n - 1), f);
    } else {
        lemma_row_contains(cid, g, reg, x, y, z, n - 1, f);
        lemma_concat_contains(row_faces(cid, g, reg, x, y, n - 1), cell_faces(cid, g, reg, x, y, n - 1), f);
    }
}

/// Every face a slice's row emits is in the slice's faces.
proof fn lemma_slice_contains(
    cid: ChunkId,
    g: Seq<usize>,
    reg: Seq<BlockDefintion>,
    x: int,
    y: int,
    n: int,
    f: FaceData,
)
    requires
        0 <= y < n,
        row_faces(cid, g, reg, x, y, CHUNK_WIDTH as int).contains(f),
    ensures
        slice_faces(cid, g, reg, x, n).contains(f),
    decreases n,
{
    if y < n - 1 {
        lemma_slice_contains(cid, g, reg, x, y, n - 1, f);
    }
    lemma_concat_contains(
        slice_faces(cid, g, reg, x, n - 1),
        row_faces(cid, g, reg, x, n - 1, CHUNK_WIDTH as int),
        f,
    );
}

/// Every face a slice emits is in the first `n` slices' faces.
proof fn lemma_grid_contains(
    cid: ChunkId,
    g: Seq<usize>,
    reg: Seq<BlockDefintion>,
    x: int,
    n: int,
    f: FaceData,
)
    requires
        0 <= x < n,
        slice_faces(cid, g, reg, x, CHUNK_HEIGHT as int).contains(f),
    ensures
        grid_faces(cid, g, reg, n).contains(f),
    decreases n,
{
    if x < n - 1 {
        lemma_grid_contains(cid, g, reg, x, n - 1, f);
    }
    lemma_concat_contains(
        grid_faces(cid, g, reg, n - 1),
        slice_faces(cid, g, reg, n - 1, CHUNK_HEIGHT as int),
        f,
    );
}

/// Every face a cell emits appears among the chunk's mesh faces.
pub proof fn lemma_mesh_contains_cell_face(
    cid: ChunkId,
    g: Seq<usize>,
    reg: Seq<BlockDefintion>,
    x: int,
    y: int,
    z: int,
    f: FaceData,
)
    requires
        cell_in_bounds(x, y, z),
        cell_faces(cid, g, reg, x, y, z).contains(f),
    ensures
        mesh_faces(cid, g, reg).contains(f),
{
    lemma_row_contains(cid, g, reg, x, y, z, CHUNK_WIDTH as int, f);
    lemma_slice_contains(cid, g, reg, x, y, CHUNK_HEIGHT as int, f);
    lemma_grid_contains(cid, g, reg, x, CHUNK_WIDTH as int, f);
}

/// Whether a vertex buffer and an index buffer are exactly what the mesher
/// prescribes for a chunk.
pub open spec fn mesh_matches(
    cid: ChunkId,
    g: Seq<usize>,
    reg: Seq<BlockDefintion>,
    vs: Seq<VoxelVertex>,
    ixs: Seq<u32>,
) -> bool {
    &&& vs == vertices_of(mesh_faces(cid, g, reg))
    &&& ixs == indices_for(mesh_faces(cid, g, reg).len() as int)
}

/// Determinism: any two meshes built from the same chunk id, block grid and
/// registry are identical, vertex for vertex and index for index.
pub proof fn lemma_build_deterministic(
    cid: ChunkId,
    g: Seq<usize>,
    reg: Seq<BlockDefintion>,
    vs1: Seq<VoxelVertex>,
    ixs1: Seq<u32>,
    vs2: Seq<VoxelVertex>,
    ixs2: Seq<u32>,
)
    requires
        mesh_matches(cid, g, reg, vs1, ixs1),
        mesh_matches(cid, g, reg, vs2, ixs2),
    ensures
        vs1 == vs2,
        ixs1 == ixs2,
{
}

} // verus!
