use vstd::prelude::*;

use crate::voxel_mesh::{mesh_matches, VoxelMesh};

verus! {

/// Width of a chunk's block grid along the x and z axes, in blocks.
pub const CHUNK_WIDTH: usize = 16;

/// Height of a chunk's block grid along the y axis, in blocks.
pub const CHUNK_HEIGHT: usize = 128;

/// Number of cells in one chunk's block grid:
/// `CHUNK_WIDTH * CHUNK_HEIGHT * CHUNK_WIDTH`.
pub const CHUNK_CELLS: usize = 32768;

/// A chunk's position on the chunk grid; one unit is one chunk width of
/// world space. Picture it as coordinates on a map.
#[derive(Copy, Clone, Debug, PartialEq, Eq, Hash, Structural)]
pub struct ChunkId {
    pub x: i32,
    pub z: i32,
}

/// An rgb color with 8-bit channels.
#[derive(Copy, Clone, Debug, PartialEq, Eq, Structural)]
pub struct Rgb {
    pub r: u8,
    pub g: u8,
    pub b: u8,
}

/// What the block registry records about one block id: whether the block
/// lets faces behind it show, and the color its faces are drawn with.
#[derive(Copy, Clone, Debug, PartialEq, Eq, Structural)]
pub struct BlockDefintion {
    pub transparency: bool,
    pub color: Rgb,
}

/// The flat position of cell `(x, y, z)` in a chunk grid laid out with x
/// outermost, then y, then z innermost.
pub open spec fn cell_index(x: int, y: int, z: int) -> int {
    x * (CHUNK_HEIGHT * CHUNK_WIDTH) as int + y * CHUNK_WIDTH as int + z
}

/// Whether `(x, y, z)` lies inside a chunk's block grid.
pub open spec fn cell_in_bounds(x: int, y: int, z: int) -> bool {
    &&& 0 <= x < CHUNK_WIDTH as int
    &&& 0 <= y < CHUNK_HEIGHT as int
    &&& 0 <= z < CHUNK_WIDTH as int
}

/// The block id stored at `(x, y, z)` of grid `g`.
pub open spec fn block_at(g: Seq<usize>, x: int, y: int, z: int) -> usize {
    g[cell_index(x, y, z)]
}

/// Whether every id in grid `g` is a valid index into a registry of
/// `reg_len` entries.
pub open spec fn grid_ids_valid(g: Seq<usize>, reg_len: int) -> bool {
    forall|i: int| 0 <= i < g.len() ==> (#[trigger] g[i]) < reg_len
}

/// Whether block id `id` is transparent according to registry `reg`.
pub open spec fn id_transparent(reg: Seq<BlockDefintion>, id: usize) -> bool {
    reg[id as int].transparency
}

/// A dense block-id grid for one chunk, indexed `[x][y][z]`, with
/// `CHUNK_WIDTH x CHUNK_HEIGHT x CHUNK_WIDTH` entries.
pub struct ChunkData {
    blocks: Vec<usize>,
}

impl View for ChunkData {
    type V = Seq<usize>;

    closed spec fn view(&self) -> Seq<usize> {
        self.blocks@
    }
}

impl ChunkData {
    /// Whether the grid has its full, fixed extent.
    pub open spec fn wf(&self) -> bool {
        self@.len() == CHUNK_CELLS as int
    }

    /// A grid with every cell set to block id 0.
    pub fn new() -> (r: ChunkData)
        ensures
            r.wf(),
            forall|i: int| 0 <= i < CHUNK_CELLS as int ==> r@[i] == 0usize,
    {
        let mut blocks: Vec<usize> = Vec::new();
        let mut i: usize = 0;
        while i < CHUNK_CELLS
            invariant
                i <= CHUNK_CELLS,
                blocks@.len() == i as int,
                forall|j: int| 0 <= j < i as int ==> blocks@[j] == 0usize,
            decreases CHUNK_CELLS - i,
        {
            blocks.push(0);
            i = i + 1;
        }
        ChunkData { blocks }
    }

    /// The block id at `(x, y, z)`.
    pub fn get(&self, x: usize, y: usize, z: usize) -> (r: usize)
        requires
            self.wf(),
            cell_in_bounds(x as int, y as int, z as int),
        ensures
            r == block_at(self@, x as int, y as int, z as int),
    {
        proof {
            assert(x * (CHUNK_HEIGHT * CHUNK_WIDTH) + y * CHUNK_WIDTH + z < CHUNK_CELLS) by {
                assert(x as int <= 15 && y as int <= 127 && z as int <= 15);
            }
        }
        self.blocks[x * (CHUNK_HEIGHT * CHUNK_WIDTH) + y * CHUNK_WIDTH + z]
    }

    /// Stores block id `id` at `(x, y, z)`.
    pub fn set(&mut self, x: usize, y: usize, z: usize, id: usize)
        requires
            old(self).wf(),
            cell_in_bounds(x as int, y as int, z as int),
        ensures
            final(self).wf(),
            final(self)@ == old(self)@.update(cell_index(x as int, y as int, z as int), id),
    {
        proof {
            assert(x * (CHUNK_HEIGHT * CHUNK_WIDTH) + y * CHUNK_WIDTH + z < CHUNK_CELLS) by {
                assert(x as int <= 15 && y as int <= 127 && z as int <= 15);
            }
        }
        let i = x * (CHUNK_HEIGHT * CHUNK_WIDTH) + y * CHUNK_WIDTH + z;
        self.blocks.set(i, id);
    }
}

/// The chunk that contains the block at voxel-grid coordinates
/// `(bx, bz)`: chunk coordinates are block coordinates divided by
/// `CHUNK_WIDTH`, rounded toward negative infinity.
pub fn world_coord_to_chunk_id(bx: i64, bz: i64) -> (r: ChunkId)
    requires
        (i32::MIN as int) * (CHUNK_WIDTH as int) <= bx as int,
        (bx as int) < (i32::MAX as int + 1) * (CHUNK_WIDTH as int),
        (i32::MIN as int) * (CHUNK_WIDTH as int) <= bz as int,
        (bz as int) < (i32::MAX as int + 1) * (CHUNK_WIDTH as int),
    ensures
        r.x as int == bx as int / CHUNK_WIDTH as int,
        r.z as int == bz as int / CHUNK_WIDTH as int,
{
    ChunkId { x: floor_div_width(bx), z: floor_div_width(bz) }
}

/// Floored division of a block coordinate by the chunk width.
fn floor_div_width(b: i64) -> (q: i32)
    requires
        (i32::MIN as int) * (CHUNK_WIDTH as int) <= b as int,
        (b as int) < (i32::MAX as int + 1) * (CHUNK_WIDTH as int),
    ensures
        q as int == b as int / CHUNK_WIDTH as int,
{
    if b >= 0 {
        let ub = b as u64;
        let qq = ub / 16;
        proof {
            vstd::arithmetic::div_mod::lemma_fundamental_div_mod(ub as int, 16);
            vstd::arithmetic::div_mod::lemma_fundamental_div_mod_converse_div(
                b as int,
                16,
                qq as int,
                ub as int % 16,
            );
        }
        qq as i32
    } else {
        let up = (-(b + 1)) as u64;
        let qp = up / 16;
        proof {
            vstd::arithmetic::div_mod::lemma_fundamental_div_mod(up as int, 16);
            vstd::arithmetic::div_mod::lemma_fundamental_div_mod_converse_div(
                b as int,
                16,
                -(qp as int) - 1,
                15 - up as int % 16,
            );
        }
        let qi = qp as i64;
        (-(qi + 1)) as i32
    }
}

/// Two distinct in-bounds cells have distinct flat positions.
pub proof fn lemma_cell_index_injective(x1: int, y1: int, z1: int, x2: int, y2: int, z2: int)
    requires
        cell_in_bounds(x1, y1, z1),
        cell_in_bounds(x2, y2, z2),
        cell_index(x1, y1, z1) == cell_index(x2, y2, z2),
    ensures
        x1 == x2 && y1 == y2 && z1 == z2,
{
    assert((CHUNK_HEIGHT * CHUNK_WIDTH) as int == 2048);
    assert(cell_index(x1, y1, z1) == x1 * 2048 + y1 * 16 + z1);
    assert(cell_index(x2, y2, z2) == x2 * 2048 + y2 * 16 + z2);
}

/// The flat position of an in-bounds cell lies inside the grid.
pub proof fn lemma_cell_index_bounds(x: int, y: int, z: int)
    requires
        cell_in_bounds(x, y, z),
    ensures
        0 <= cell_index(x, y, z) < CHUNK_CELLS as int,
{
    assert((CHUNK_HEIGHT * CHUNK_WIDTH) as int == 2048);
    assert(cell_index(x, y, z) == x * 2048 + y * 16 + z);
}

/// The block id of the cell at height `y` in a terrain column of height
/// `h`: air at and above the surface, grass in the top cell, dirt in the
/// three cells under it, stone below.
pub open spec fn layer_block(h: int, y: int) -> usize {
    if y >= h {
        0
    } else if y == h - 1 {
        1
    } else if y + 4 >= h {
        2
    } else {
        3
    }
}

/// One chunk of the world: its position on the chunk grid, its block grid,
/// and the mesh built from them.
pub struct Chunk {
    pub id: ChunkId,
    pub blocks: ChunkData,
    pub mesh: VoxelMesh,
}

impl Chunk {
    /// Builds a chunk of layered terrain and its mesh: column `(x, z)` is
    /// filled up to height `heights[x * CHUNK_WIDTH + z]` with stone, then
    /// three cells of dirt, then one of grass, air above; the mesh is built
    /// from that grid against `registry`.
    #[verifier::loop_isolation(false)]
    #[verifier::rlimit(60)]
    pub fn flat_world(id: ChunkId, heights: &Vec<usize>, registry: &Vec<BlockDefintion>) -> (r:
        Chunk)
        requires
            heights@.len() == (CHUNK_WIDTH * CHUNK_WIDTH) as int,
            forall|i: int| 0 <= i < heights@.len() ==> (#[trigger] heights@[i]) <= CHUNK_HEIGHT,
            registry@.len() >= 4,
        ensures
            r.id == id,
            r.blocks.wf(),
            forall|x: int, y: int, z: int|
                cell_in_bounds(x, y, z) ==> #[trigger] block_at(r.blocks@, x, y, z) == layer_block(
                    heights@[x * CHUNK_WIDTH as int + z] as int,
                    y,
                ),
            mesh_matches(id, r.blocks@, registry@, r.mesh.verts@, r.mesh.indices@),
            r.mesh.wf(),
    {
        let mut blocks = ChunkData::new();
        proof {
            assert forall|x2: int, y2: int, z2: int|
                cell_in_bounds(x2, y2, z2) implies #[trigger] block_at(blocks@, x2, y2, z2)
                == 0usize by {
                lemma_cell_index_bounds(x2, y2, z2);
            }
        }
        let mut x: usize = 0;
        while x < CHUNK_WIDTH
            invariant
                x <= CHUNK_WIDTH,
                blocks.wf(),
                forall|i: int| 0 <= i < blocks@.len() ==> (#[trigger] blocks@[i]) < 4,
                forall|x2: int, y2: int, z2: int|
                    cell_in_bounds(x2, y2, z2) && x2 < x as int ==> #[trigger] block_at(
                        blocks@,
                        x2,
                        y2,
                        z2,
                    ) == layer_block(heights@[x2 * CHUNK_WIDTH as int + z2] as int, y2),
                forall|x2: int, y2: int, z2: int|
                    cell_in_bounds(x2, y2, z2) && x2 >= x as int ==> #[trigger] block_at(
                        blocks@,
                        x2,
                        y2,
                        z2,
                    ) == 0usize,
            decreases CHUNK_WIDTH - x,
        {
            let mut z: usize = 0;
            while z < CHUNK_WIDTH
                invariant
                    x < CHUNK_WIDTH,
                    z <= CHUNK_WIDTH,
                    blocks.wf(),
                    forall|i: int| 0 <= i < blocks@.len() ==> (#[trigger] blocks@[i]) < 4,
                    forall|x2: int, y2: int, z2: int|
                        cell_in_bounds(x2, y2, z2) && (x2 < x as int || (x2 == x as int && z2
                            < z as int)) ==> #[trigger] block_at(blocks@, x2, y2, z2)
                            == layer_block(heights@[x2 * CHUNK_WIDTH as int + z2] as int, y2),
                    forall|x2: int, y2: int, z2: int|
                        cell_in_bounds(x2, y2, z2) && (x2 > x as int || (x2 == x as int && z2
                            >= z as int)) ==> #[trigger] block_at(blocks@, x2, y2, z2) == 0usize,
                decreases CHUNK_WIDTH - z,
            {
                let height = heights[x * CHUNK_WIDTH + z];
                let mut y: usize = 0;
                while y < height
                    invariant
                        x < CHUNK_WIDTH,
                        z < CHUNK_WIDTH,
                        y <= height,
                        height == heights@[x as int * CHUNK_WIDTH as int + z as int],
                        height <= CHUNK_HEIGHT,
                        blocks.wf(),
                        forall|i: int| 0 <= i < blocks@.len() ==> (#[trigger] blocks@[i]) < 4,
                        forall|x2: int, y2: int, z2: int|
                            cell_in_bounds(x2, y2, z2) && (x2 < x as int || (x2 == x as int && z2
                                < z as int)) ==> #[trigger] block_at(blocks@, x2, y2, z2)
                                == layer_block(heights@[x2 * CHUNK_WIDTH as int + z2] as int, y2),
                        forall|y2: int|
                            0 <= y2 < y as int ==> #[trigger] block_at(blocks@, x as int, y2, z as int)
                                == layer_block(height as int, y2),
                        forall|y2: int|
                            y as int <= y2 < CHUNK_HEIGHT as int ==> #[trigger] block_at(
                                blocks@,
                                x as int,
                                y2,
                                z as int,
                            ) == 0usize,
                        forall|x2: int, y2: int, z2: int|
                            cell_in_bounds(x2, y2, z2) && (x2 > x as int || (x2 == x as int && z2
                                > z as int)) ==> #[trigger] block_at(blocks@, x2, y2, z2) == 0usize,
                    decreases height - y,
                {
                    let mut block: usize = 3;
                    if y == height - 1 {
                        block = 1;
                    }
                    if y + 1 < height && y + 4 >= height {
                        block = 2;
                    }
                    let ghost before = blocks@;
                    blocks.set(x, y, z, block);
                    proof {
                        assert(block == layer_block(height as int, y as int));
                        assert forall|x2: int, y2: int, z2: int|
                            cell_in_bounds(x2, y2, z2) && !(x2 == x as int && y2 == y as int && z2
                                == z as int) implies #[trigger] block_at(blocks@, x2, y2, z2)
                            == block_at(before, x2, y2, z2) by {
                            lemma_cell_index_bounds(x2, y2, z2);
                            if cell_index(x2, y2, z2) == cell_index(x as int, y as int, z as int) {
                                lemma_cell_index_injective(
                                    x2,
                                    y2,
                                    z2,
                                    x as int,
                                    y as int,
                                    z as int,
                                );
                            }
                        }
                        assert(block_at(blocks@, x as int, y as int, z as int) == block);
                    }
                    y = y + 1;
                }
                proof {
                    assert forall|y2: int|
                        0 <= y2 < CHUNK_HEIGHT as int implies #[trigger] block_at(
                        blocks@,
                        x as int,
                        y2,
                        z as int,
                    ) == layer_block(height as int, y2) by {
                        if y2 >= y as int {
                            assert(layer_block(height as int, y2) == 0usize);
                        }
                    }
                }
                z = z + 1;
            }
            x = x + 1;
        }
        let mesh = VoxelMesh::from_blocks(&id, &blocks, registry);
        Chunk { id, blocks, mesh }
    }

    /// The block id at local cell `(x, y, z)`.
    pub fn get_block(&self, x: usize, y: usize, z: usize) -> (r: usize)
        requires
            self.blocks.wf(),
            cell_in_bounds(x as int, y as int, z as int),
        ensures
            r == block_at(self.blocks@, x as int, y as int, z as int),
    {
        self.blocks.get(x, y, z)
    }
}

} // verus!
