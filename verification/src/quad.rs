use vstd::prelude::*;

use crate::blocks::Rgb;
use crate::direction::AbsolouteDirection;
use crate::voxel::{Pos3, VoxelVertex};

verus! {

/// A four-cornered mesh piece: one face of a voxel.
pub struct Quad<V> {
    pub verts: [V; 4],
}

impl<V> Quad<V> {
    /// Wraps four vertices as a quad.
    pub fn new(verts: [V; 4]) -> (r: Quad<V>)
        ensures
            r.verts@ == verts@,
    {
        Quad { verts }
    }
}

/// One emitted face, in specification form: its orientation, the world
/// position of its block in voxel-grid units, and the block's color and id.
pub ghost struct FaceData {
    pub dir: AbsolouteDirection,
    pub x: int,
    pub y: int,
    pub z: int,
    pub color: Rgb,
    pub block_id: u32,
}

/// The corner of a face of direction `dir` at quad slot `i` (0 through 3),
/// as an offset from the block's position. The layouts are fixed and
/// hand-derived; only their outward winding and shared edges matter.
pub open spec fn face_corner(dir: AbsolouteDirection, i: int) -> (int, int, int) {
    match dir {
        AbsolouteDirection::South => if i == 0 {
            (0int, 0int, 0int)
        } else if i == 1 {
            (1int, 0int, 0int)
        } else if i == 2 {
            (0int, 1int, 0int)
        } else {
            (1int, 1int, 0int)
        },
        AbsolouteDirection::North => if i == 0 {
            (1int, 0int, 1int)
        } else if i == 1 {
            (0int, 0int, 1int)
        } else if i == 2 {
            (1int, 1int, 1int)
        } else {
            (0int, 1int, 1int)
        },
        AbsolouteDirection::East => if i == 0 {
            (1int, 0int, 0int)
        } else if i == 1 {
            (1int, 0int, 1int)
        } else if i == 2 {
            (1int, 1int, 0int)
        } else {
            (1int, 1int, 1int)
        },
        AbsolouteDirection::West => if i == 0 {
            (0int, 0int, 1int)
        } else if i == 1 {
            (0int, 0int, 0int)
        } else if i == 2 {
            (0int, 1int, 1int)
        } else {
            (0int, 1int, 0int)
        },
        AbsolouteDirection::Up => if i == 0 {
            (0int, 1int, 0int)
        } else if i == 1 {
            (1int, 1int, 0int)
        } else if i == 2 {
            (0int, 1int, 1int)
        } else {
            (1int, 1int, 1int)
        },
        AbsolouteDirection::Down => if i == 0 {
            (0int, 0int, 1int)
        } else if i == 1 {
            (1int, 0int, 1int)
        } else if i == 2 {
            (0int, 0int, 0int)
        } else {
            (1int, 0int, 0int)
        },
    }
}

/// Whether the face's block position leaves room for the `+1` corner
/// offsets within `i64`.
pub open spec fn face_fits(f: FaceData) -> bool {
    &&& i64::MIN <= f.x && f.x + 1 <= i64::MAX
    &&& i64::MIN <= f.y && f.y + 1 <= i64::MAX
    &&& i64::MIN <= f.z && f.z + 1 <= i64::MAX
}

/// The vertex of face `f` at quad slot `i`.
pub open spec fn face_vertex(f: FaceData, i: int) -> VoxelVertex {
    let (cx, cy, cz) = face_corner(f.dir, i);
    VoxelVertex {
        position: Pos3 { x: (f.x + cx) as i64, y: (f.y + cy) as i64, z: (f.z + cz) as i64 },
        color: f.color,
        block_id: f.block_id,
        direction: f.dir,
    }
}

/// The four vertices of face `f`, in the fixed per-direction layout.
pub open spec fn face_vertices(f: FaceData) -> Seq<VoxelVertex> {
    seq![face_vertex(f, 0), face_vertex(f, 1), face_vertex(f, 2), face_vertex(f, 3)]
}

/// The concatenated vertices of the faces `fs`, four per face, in order.
pub open spec fn vertices_of(fs: Seq<FaceData>) -> Seq<VoxelVertex>
    decreases fs.len(),
{
    if fs.len() == 0 {
        Seq::empty()
    } else {
        vertices_of(fs.drop_last()) + face_vertices(fs.last())
    }
}

/// The six indices of face number `k`: the fixed two-triangle quad pattern
/// `0, 2, 1, 1, 2, 3`, offset by the four vertices of each earlier face.
pub open spec fn face_indices(k: int) -> Seq<u32> {
    seq![
        (4 * k) as u32,
        (4 * k + 2) as u32,
        (4 * k + 1) as u32,
        (4 * k + 1) as u32,
        (4 * k + 2) as u32,
        (4 * k + 3) as u32,
    ]
}

/// The whole index buffer for `n` faces.
pub open spec fn indices_for(n: int) -> Seq<u32>
    decreases n,
{
    if n <= 0 {
        Seq::empty()
    } else {
        indices_for(n - 1) + face_indices(n - 1)
    }
}

/// The vertices of a concatenation of face sequences, in order.
pub proof fn lemma_vertices_of_concat(a: Seq<FaceData>, b: Seq<FaceData>)
    ensures
        vertices_of(a + b) == vertices_of(a) + vertices_of(b),
    decreases b.len(),
{
    if b.len() == 0 {
        assert(a + b =~= a);
        assert(vertices_of(a) + vertices_of(b) =~= vertices_of(a));
    } else {
        lemma_vertices_of_concat(a, b.drop_last());
        assert((a + b).drop_last() =~= a + b.drop_last());
        assert((a + b).last() == b.last());
        assert(vertices_of(a) + (vertices_of(b.drop_last()) + face_vertices(b.last())) =~= (
        vertices_of(a) + vertices_of(b.drop_last())) + face_vertices(b.last()));
    }
}

/// Four vertices per face.
pub proof fn lemma_vertices_of_len(fs: Seq<FaceData>)
    ensures
        vertices_of(fs).len() == 4 * fs.len(),
    decreases fs.len(),
{
    if fs.len() != 0 {
        lemma_vertices_of_len(fs.drop_last());
    }
}

/// The vertex at position `4k + i` of a face sequence's vertices is corner
/// `i` of face `k`.
pub proof fn lemma_vertices_of_index(fs: Seq<FaceData>, k: int, i: int)
    requires
        0 <= k < fs.len(),
        0 <= i < 4,
    ensures
        vertices_of(fs)[4 * k + i] == face_vertex(fs[k], i),
    decreases fs.len(),
{
    lemma_vertices_of_len(fs.drop_last());
    if k == fs.len() - 1 {
        assert(face_vertices(fs.last())[i] == face_vertex(fs.last(), i));
    } else {
        lemma_vertices_of_index(fs.drop_last(), k, i);
        assert(fs.drop_last()[k] == fs[k]);
    }
}

/// Six indices per face.
pub proof fn lemma_indices_for_len(n: int)
    requires
        0 <= n,
    ensures
        indices_for(n).len() == 6 * n,
    decreases n,
{
    if n > 0 {
        lemma_indices_for_len(n - 1);
    }
}

/// The index at position `6k + j` of the buffer for `n` faces is entry `j`
/// of face `k`'s quad pattern.
pub proof fn lemma_indices_for_index(n: int, k: int, j: int)
    requires
        0 <= k < n,
        0 <= j < 6,
    ensures
        indices_for(n)[6 * k + j] == face_indices(k)[j],
    decreases n,
{
    lemma_indices_for_len(n - 1);
    if k < n - 1 {
        lemma_indices_for_index(n - 1, k, j);
    }
}

/// Index validity: every index in the buffer for `n` faces points below
/// `4n`, the number of vertices those faces carry.
pub proof fn lemma_indices_for_valid(n: int)
    requires
        0 <= n,
        4 * n + 3 <= u32::MAX,
    ensures
        indices_for(n).len() == 6 * n,
        forall|i: int| 0 <= i < 6 * n ==> (indices_for(n)[i] as int) < 4 * n,
    decreases n,
{
    lemma_indices_for_len(n);
    if n > 0 {
        lemma_indices_for_valid(n - 1);
        assert forall|i: int| 0 <= i < 6 * n implies (indices_for(n)[i] as int) < 4 * n by {
            if i < 6 * (n - 1) {
                assert(indices_for(n)[i] == indices_for(n - 1)[i]);
            } else {
                assert(indices_for(n)[i] == face_indices(n - 1)[i - 6 * (n - 1)]);
            }
        }
    }
}

/// The outward normal of a face of direction `d`, as an integer unit
/// vector.
pub open spec fn outward_normal(d: AbsolouteDirection) -> (int, int, int) {
    (d.offset_x(), d.offset_y(), d.offset_z())
}

/// The cross product `(b - a) x (c - a)` of the edge vectors of the
/// triangle `(a, b, c)`, over the vertices' integer positions.
pub open spec fn triangle_normal(a: VoxelVertex, b: VoxelVertex, c: VoxelVertex) -> (
    int,
    int,
    int,
) {
    let ux = b.position.x - a.position.x;
    let uy = b.position.y - a.position.y;
    let uz = b.position.z - a.position.z;
    let vx = c.position.x - a.position.x;
    let vy = c.position.y - a.position.y;
    let vz = c.position.z - a.position.z;
    (uy * vz - uz * vy, uz * vx - ux * vz, ux * vy - uy * vx)
}

/// Cross-product components of the edges of a triangle `(a, b, c)` whose
/// edge vectors are known constants.
proof fn lemma_cross_components(
    ax: int, ay: int, az: int,
    bx: int, by: int, bz: int,
    cx: int, cy: int, cz: int,
    ux: int, uy: int, uz: int,
    vx: int, vy: int, vz: int,
) by (nonlinear_arith)
    requires
        bx == ax + ux, by == ay + uy, bz == az + uz,
        cx == ax + vx, cy == ay + vy, cz == az + vz,
    ensures
        (bx - ax) * (cy - ay) - (by - ay) * (cx - ax) == ux * vy - uy * vx,
        (by - ay) * (cz - az) - (bz - az) * (cy - ay) == uy * vz - uz * vy,
        (bz - az) * (cx - ax) - (bx - ax) * (cz - az) == uz * vx - ux * vz,
{
}

/// Winding of a face toward `South`.
proof fn lemma_face_winding_south(f: FaceData)
    requires
        face_fits(f),
        f.dir == AbsolouteDirection::South,
    ensures
        triangle_normal(face_vertex(f, 0), face_vertex(f, 2), face_vertex(f, 1))
            == outward_normal(f.dir),
        triangle_normal(face_vertex(f, 1), face_vertex(f, 2), face_vertex(f, 3))
            == outward_normal(f.dir),
{
    let v0 = face_vertex(f, 0);
    let v1 = face_vertex(f, 1);
    let v2 = face_vertex(f, 2);
    let v3 = face_vertex(f, 3);
    assert(face_corner(f.dir, 0) == (0int, 0int, 0int));
    assert(face_corner(f.dir, 1) == (1int, 0int, 0int));
    assert(face_corner(f.dir, 2) == (0int, 1int, 0int));
    assert(face_corner(f.dir, 3) == (1int, 1int, 0int));
    assert(v0.position.x as int == f.x + 0 && v0.position.y as int == f.y + 0 && v0.position.z as int == f.z + 0);
    assert(v1.position.x as int == f.x + 1 && v1.position.y as int == f.y + 0 && v1.position.z as int == f.z + 0);
    assert(v2.position.x as int == f.x + 0 && v2.position.y as int == f.y + 1 && v2.position.z as int == f.z + 0);
    assert(v3.position.x as int == f.x + 1 && v3.position.y as int == f.y + 1 && v3.position.z as int == f.z + 0);
    lemma_cross_components(
        v0.position.x as int,
        v0.position.y as int,
        v0.position.z as int,
        v2.position.x as int,
        v2.position.y as int,
        v2.position.z as int,
        v1.position.x as int,
        v1.position.y as int,
        v1.position.z as int,
        0int,
        1int,
        0int,
        1int,
        0int,
        0int,
    );
    lemma_cross_components(
        v1.position.x as int,
        v1.position.y as int,
        v1.position.z as int,
        v2.position.x as int,
        v2.position.y as int,
        v2.position.z as int,
        v3.position.x as int,
        v3.position.y as int,
        v3.position.z as int,
        -1int,
        1int,
        0int,
        0int,
        1int,
        0int,
    );
    assert(triangle_normal(v0, v2, v1) == outward_normal(f.dir));
    assert(triangle_normal(v1, v2, v3) == outward_normal(f.dir));
}

/// Winding of a face toward `North`.
proof fn lemma_face_winding_north(f: FaceData)
    requires
        face_fits(f),
        f.dir == AbsolouteDirection::North,
    ensures
        triangle_normal(face_vertex(f, 0), face_vertex(f, 2), face_vertex(f, 1))
            == outward_normal(f.dir),
        triangle_normal(face_vertex(f, 1), face_vertex(f, 2), face_vertex(f, 3))
            == outward_normal(f.dir),
{
    let v0 = face_vertex(f, 0);
    let v1 = face_vertex(f, 1);
    let v2 = face_vertex(f, 2);
    let v3 = face_vertex(f, 3);
    assert(face_corner(f.dir, 0) == (1int, 0int, 1int));
    assert(face_corner(f.dir, 1) == (0int, 0int, 1int));
    assert(face_corner(f.dir, 2) == (1int, 1int, 1int));
    assert(face_corner(f.dir, 3) == (0int, 1int, 1int));
    assert(v0.position.x as int == f.x + 1 && v0.position.y as int == f.y + 0 && v0.position.z as int == f.z + 1);
    assert(v1.position.x as int == f.x + 0 && v1.position.y as int == f.y + 0 && v1.position.z as int == f.z + 1);
    assert(v2.position.x as int == f.x + 1 && v2.position.y as int == f.y + 1 && v2.position.z as int == f.z + 1);
    assert(v3.position.x as int == f.x + 0 && v3.position.y as int == f.y + 1 && v3.position.z as int == f.z + 1);
    lemma_cross_components(
        v0.position.x as int,
        v0.position.y as int,
        v0.position.z as int,
        v2.position.x as int,
        v2.position.y as int,
        v2.position.z as int,
        v1.position.x as int,
        v1.position.y as int,
        v1.position.z as int,
        0int,
        1int,
        0int,
        -1int,
        0int,
        0int,
    );
    lemma_cross_components(
        v1.position.x as int,
        v1.position.y as int,
        v1.position.z as int,
        v2.position.x as int,
        v2.position.y as int,
        v2.position.z as int,
        v3.position.x as int,
        v3.position.y as int,
        v3.position.z as int,
        1int,
        1int,
        0int,
        0int,
        1int,
        0int,
    );
    assert(triangle_normal(v0, v2, v1) == outward_normal(f.dir));
    assert(triangle_normal(v1, v2, v3) == outward_normal(f.dir));
}

/// Winding of a face toward `East`.
proof fn lemma_face_winding_east(f: FaceData)
    requires
        face_fits(f),
        f.dir == AbsolouteDirection::East,
    ensures
        triangle_normal(face_vertex(f, 0), face_vertex(f, 2), face_vertex(f, 1))
            == outward_normal(f.dir),
        triangle_normal(face_vertex(f, 1), face_vertex(f, 2), face_vertex(f, 3))
            == outward_normal(f.dir),
{
    let v0 = face_vertex(f, 0);
    let v1 = face_vertex(f, 1);
    let v2 = face_vertex(f, 2);
    let v3 = face_vertex(f, 3);
    assert(face_corner(f.dir, 0) == (1int, 0int, 0int));
    assert(face_corner(f.dir, 1) == (1int, 0int, 1int));
    assert(face_corner(f.dir, 2) == (1int, 1int, 0int));
    assert(face_corner(f.dir, 3) == (1int, 1int, 1int));
    assert(v0.position.x as int == f.x + 1 && v0.position.y as int == f.y + 0 && v0.position.z as int == f.z + 0);
    assert(v1.position.x as int == f.x + 1 && v1.position.y as int == f.y + 0 && v1.position.z as int == f.z + 1);
    assert(v2.position.x as int == f.x + 1 && v2.position.y as int == f.y + 1 && v2.position.z as int == f.z + 0);
    assert(v3.position.x as int == f.x + 1 && v3.position.y as int == f.y + 1 && v3.position.z as int == f.z + 1);
    lemma_cross_components(
        v0.position.x as int,
        v0.position.y as int,
        v0.position.z as int,
        v2.position.x as int,
        v2.position.y as int,
        v2.position.z as int,
        v1.position.x as int,
        v1.position.y as int,
        v1.position.z as int,
        0int,
        1int,
        0int,
        0int,
        0int,
        1int,
    );
    lemma_cross_components(
        v1.position.x as int,
        v1.position.y as int,
        v1.position.z as int,
        v2.position.x as int,
        v2.position.y as int,
        v2.position.z as int,
        v3.position.x as int,
        v3.position.y as int,
        v3.position.z as int,
        0int,
        1int,
        -1int,
        0int,
        1int,
        0int,
    );
    assert(triangle_normal(v0, v2, v1) == outward_normal(f.dir));
    assert(triangle_normal(v1, v2, v3) == outward_normal(f.dir));
}

/// Winding of a face toward `West`.
proof fn lemma_face_winding_west(f: FaceData)
    requires
        face_fits(f),
        f.dir == AbsolouteDirection::West,
    ensures
        triangle_normal(face_vertex(f, 0), face_vertex(f, 2), face_vertex(f, 1))
            == outward_normal(f.dir),
        triangle_normal(face_vertex(f, 1), face_vertex(f, 2), face_vertex(f, 3))
            == outward_normal(f.dir),
{
    let v0 = face_vertex(f, 0);
    let v1 = face_vertex(f, 1);
    let v2 = face_vertex(f, 2);
    let v3 = face_vertex(f, 3);
    assert(face_corner(f.dir, 0) == (0int, 0int, 1int));
    assert(face_corner(f.dir, 1) == (0int, 0int, 0int));
    assert(face_corner(f.dir, 2) == (0int, 1int, 1int));
    assert(face_corner(f.dir, 3) == (0int, 1int, 0int));
    assert(v0.position.x as int == f.x + 0 && v0.position.y as int == f.y + 0 && v0.position.z as int == f.z + 1);
    assert(v1.position.x as int == f.x + 0 && v1.position.y as int == f.y + 0 && v1.position.z as int == f.z + 0);
    assert(v2.position.x as int == f.x + 0 && v2.position.y as int == f.y + 1 && v2.position.z as int == f.z + 1);
    assert(v3.position.x as int == f.x + 0 && v3.position.y as int == f.y + 1 && v3.position.z as int == f.z + 0);
    lemma_cross_components(
        v0.position.x as int,
        v0.position.y as int,
        v0.position.z as int,
        v2.position.x as int,
        v2.position.y as int,
        v2.position.z as int,
        v1.position.x as int,
        v1.position.y as int,
        v1.position.z as int,
        0int,
        1int,
        0int,
        0int,
        0int,
        -1int,
    );
    lemma_cross_components(
        v1.position.x as int,
        v1.position.y as int,
        v1.position.z as int,
        v2.position.x as int,
        v2.position.y as int,
        v2.position.z as int,
        v3.position.x as int,
        v3.position.y as int,
        v3.position.z as int,
        0int,
        1int,
        1int,
        0int,
        1int,
        0int,
    );
    assert(triangle_normal(v0, v2, v1) == outward_normal(f.dir));
    assert(triangle_normal(v1, v2, v3) == outward_normal(f.dir));
}

/// Winding of a face toward `Up`.
proof fn lemma_face_winding_up(f: FaceData)
    requires
        face_fits(f),
        f.dir == AbsolouteDirection::Up,
    ensures
        triangle_normal(face_vertex(f, 0), face_vertex(f, 2), face_vertex(f, 1))
            == outward_normal(f.dir),
        triangle_normal(face_vertex(f, 1), face_vertex(f, 2), face_vertex(f, 3))
            == outward_normal(f.dir),
{
    let v0 = face_vertex(f, 0);
    let v1 = face_vertex(f, 1);
    let v2 = face_vertex(f, 2);
    let v3 = face_vertex(f, 3);
    assert(face_corner(f.dir, 0) == (0int, 1int, 0int));
    assert(face_corner(f.dir, 1) == (1int, 1int, 0int));
    assert(face_corner(f.dir, 2) == (0int, 1int, 1int));
    assert(face_corner(f.dir, 3) == (1int, 1int, 1int));
    assert(v0.position.x as int == f.x + 0 && v0.position.y as int == f.y + 1 && v0.position.z as int == f.z + 0);
    assert(v1.position.x as int == f.x + 1 && v1.position.y as int == f.y + 1 && v1.position.z as int == f.z + 0);
    assert(v2.position.x as int == f.x + 0 && v2.position.y as int == f.y + 1 && v2.position.z as int == f.z + 1);
    assert(v3.position.x as int == f.x + 1 && v3.position.y as int == f.y + 1 && v3.position.z as int == f.z + 1);
    lemma_cross_components(
        v0.position.x as int,
        v0.position.y as int,
        v0.position.z as int,
        v2.position.x as int,
        v2.position.y as int,
        v2.position.z as int,
        v1.position.x as int,
        v1.position.y as int,
        v1.position.z as int,
        0int,
        0int,
        1int,
        1int,
        0int,
        0int,
    );
    lemma_cross_components(
        v1.position.x as int,
        v1.position.y as int,
        v1.position.z as int,
        v2.position.x as int,
        v2.position.y as int,
        v2.position.z as int,
        v3.position.x as int,
        v3.position.y as int,
        v3.position.z as int,
        -1int,
        0int,
        1int,
        0int,
        0int,
        1int,
    );
    assert(triangle_normal(v0, v2, v1) == outward_normal(f.dir));
    assert(triangle_normal(v1, v2, v3) == outward_normal(f.dir));
}

/// Winding of a face toward `Down`.
proof fn lemma_face_winding_down(f: FaceData)
    requires
        face_fits(f),
        f.dir == AbsolouteDirection::Down,
    ensures
        triangle_normal(face_vertex(f, 0), face_vertex(f, 2), face_vertex(f, 1))
            == outward_normal(f.dir),
        triangle_normal(face_vertex(f, 1), face_vertex(f, 2), face_vertex(f, 3))
            == outward_normal(f.dir),
{
    let v0 = face_vertex(f, 0);
    let v1 = face_vertex(f, 1);
    let v2 = face_vertex(f, 2);
    let v3 = face_vertex(f, 3);
    assert(face_corner(f.dir, 0) == (0int, 0int, 1int));
    assert(face_corner(f.dir, 1) == (1int, 0int, 1int));
    assert(face_corner(f.dir, 2) == (0int, 0int, 0int));
    assert(face_corner(f.dir, 3) == (1int, 0int, 0int));
    assert(v0.position.x as int == f.x + 0 && v0.position.y as int == f.y + 0 && v0.position.z as int == f.z + 1);
    assert(v1.position.x as int == f.x + 1 && v1.position.y as int == f.y + 0 && v1.position.z as int == f.z + 1);
    assert(v2.position.x as int == f.x + 0 && v2.position.y as int == f.y + 0 && v2.position.z as int == f.z + 0);
    assert(v3.position.x as int == f.x + 1 && v3.position.y as int == f.y + 0 && v3.position.z as int == f.z + 0);
    lemma_cross_components(
        v0.position.x as int,
        v0.position.y as int,
        v0.position.z as int,
        v2.position.x as int,
        v2.position.y as int,
        v2.position.z as int,
        v1.position.x as int,
        v1.position.y as int,
        v1.position.z as int,
        0int,
        0int,
        -1int,
        1int,
        0int,
        0int,
    );
    lemma_cross_components(
        v1.position.x as int,
        v1.position.y as int,
        v1.position.z as int,
        v2.position.x as int,
        v2.position.y as int,
        v2.position.z as int,
        v3.position.x as int,
        v3.position.y as int,
        v3.position.z as int,
        -1int,
        0int,
        -1int,
        0int,
        0int,
        -1int,
    );
    assert(triangle_normal(v0, v2, v1) == outward_normal(f.dir));
    assert(triangle_normal(v1, v2, v3) == outward_normal(f.dir));
}

/// Winding consistency: both triangles of any face, taken in the emitted
/// index order (slots `0, 2, 1`, then `1, 2, 3`), wind counter-clockwise as
/// seen from outside the block: their edge cross product is exactly the
/// face's outward normal.
pub proof fn lemma_face_winding(f: FaceData)
    requires
        face_fits(f),
    ensures
        triangle_normal(face_vertex(f, 0), face_vertex(f, 2), face_vertex(f, 1))
            == outward_normal(f.dir),
        triangle_normal(face_vertex(f, 1), face_vertex(f, 2), face_vertex(f, 3))
            == outward_normal(f.dir),
{
    match f.dir {
        AbsolouteDirection::South => lemma_face_winding_south(f),
        AbsolouteDirection::North => lemma_face_winding_north(f),
        AbsolouteDirection::East => lemma_face_winding_east(f),
        AbsolouteDirection::West => lemma_face_winding_west(f),
        AbsolouteDirection::Up => lemma_face_winding_up(f),
        AbsolouteDirection::Down => lemma_face_winding_down(f),
    }
}

/// Nothing, or one face, depending on a visibility flag.
pub open spec fn opt_face(vis: bool, f: FaceData) -> Seq<FaceData> {
    if vis {
        seq![f]
    } else {
        Seq::empty()
    }
}

/// The vertices of one optional face.
pub proof fn lemma_vertices_of_opt(vis: bool, f: FaceData)
    ensures
        vertices_of(opt_face(vis, f)) == if vis {
            face_vertices(f)
        } else {
            Seq::<VoxelVertex>::empty()
        },
{
    if vis {
        assert(seq![f].drop_last() =~= Seq::<FaceData>::empty());
        assert(vertices_of(Seq::<FaceData>::empty()) + face_vertices(f) =~= face_vertices(f));
    }
}

/// One step of face emission: if `vis` holds, the four vertices of `f`
/// were appended; either way a buffer that carried `prefix` and then the
/// vertices of `fs` now carries `prefix` and the vertices of `fs` extended
/// by the optional face.
pub(crate) proof fn lemma_face_step(
    prefix: Seq<VoxelVertex>,
    vs_before: Seq<VoxelVertex>,
    vs_after: Seq<VoxelVertex>,
    fs: Seq<FaceData>,
    vis: bool,
    f: FaceData,
)
    requires
        vs_before == prefix + vertices_of(fs),
        vs_after == if vis {
            vs_before + face_vertices(f)
        } else {
            vs_before
        },
    ensures
        vs_after == prefix + vertices_of(fs + opt_face(vis, f)),
        (fs + opt_face(vis, f)).len() == fs.len() + if vis {
            1int
        } else {
            0int
        },
{
    lemma_vertices_of_opt(vis, f);
    lemma_vertices_of_concat(fs, opt_face(vis, f));
    if vis {
        assert((prefix + vertices_of(fs)) + face_vertices(f) =~= prefix + (vertices_of(fs)
            + face_vertices(f)));
    } else {
        assert(vertices_of(fs) + Seq::<VoxelVertex>::empty() =~= vertices_of(fs));
    }
}

/// Appends face number `k` of the block at `pos` to a vertex and an index
/// buffer: its four vertices, then the quad pattern offset by the four
/// vertices of each of the `k` faces already in the buffer.
pub(crate) fn emit_face(
    verts: &mut Vec<VoxelVertex>,
    indices: &mut Vec<u32>,
    dir: AbsolouteDirection,
    pos: Pos3,
    color: Rgb,
    block_id: u32,
    Ghost(k): Ghost<int>,
)
    requires
        pos_fits(pos),
        old(verts)@.len() == 4 * k,
        old(verts)@.len() + 4 <= u32::MAX,
        old(indices)@ == indices_for(k),
    ensures
        final(verts)@ == old(verts)@ + face_vertices(face_at(dir, pos, color, block_id)),
        final(verts)@.len() == 4 * (k + 1),
        final(indices)@ == indices_for(k + 1),
{
    let base = verts.len() as u32;
    let face = match dir {
        AbsolouteDirection::North => north_face(pos, color, block_id),
        AbsolouteDirection::East => east_face(pos, color, block_id),
        AbsolouteDirection::South => south_face(pos, color, block_id),
        AbsolouteDirection::West => west_face(pos, color, block_id),
        AbsolouteDirection::Up => top_face(pos, color, block_id),
        AbsolouteDirection::Down => bottom_face(pos, color, block_id),
    };
    verts.push(face[0]);
    verts.push(face[1]);
    verts.push(face[2]);
    verts.push(face[3]);
    indices.push(base);
    indices.push(base + 2);
    indices.push(base + 1);
    indices.push(base + 1);
    indices.push(base + 2);
    indices.push(base + 3);
    proof {
        lemma_indices_for_len(k);
        assert(verts@ =~= old(verts)@ + face_vertices(face_at(dir, pos, color, block_id)));
        assert(indices@ =~= indices_for(k + 1));
    }
}

/// The face of direction `dir` for the block at `pos`, in spec form.
pub open spec fn face_at(dir: AbsolouteDirection, pos: Pos3, color: Rgb, block_id: u32) -> FaceData {
    FaceData { dir, x: pos.x as int, y: pos.y as int, z: pos.z as int, color, block_id }
}

/// Whether the `+1` corner offsets from `pos` stay within `i64`.
pub open spec fn pos_fits(pos: Pos3) -> bool {
    pos.x < i64::MAX && pos.y < i64::MAX && pos.z < i64::MAX
}

/// The south face (toward negative z) of the block at `pos`.
pub fn south_face(pos: Pos3, color: Rgb, block_id: u32) -> (r: [VoxelVertex; 4])
    requires
        pos_fits(pos),
    ensures
        r@ == face_vertices(face_at(AbsolouteDirection::South, pos, color, block_id)),
{
    let d = AbsolouteDirection::South;
    let r = [
        VoxelVertex { position: Pos3 { x: pos.x, y: pos.y, z: pos.z }, color, block_id, direction: d },
        VoxelVertex {
            position: Pos3 { x: pos.x + 1, y: pos.y, z: pos.z },
            color,
            block_id,
            direction: d,
        },
        VoxelVertex {
            position: Pos3 { x: pos.x, y: pos.y + 1, z: pos.z },
            color,
            block_id,
            direction: d,
        },
        VoxelVertex {
            position: Pos3 { x: pos.x + 1, y: pos.y + 1, z: pos.z },
            color,
            block_id,
            direction: d,
        },
    ];
    proof {
        assert(r@ =~= face_vertices(face_at(d, pos, color, block_id)));
    }
    r
}

/// The north face (toward positive z) of the block at `pos`.
pub fn north_face(pos: Pos3, color: Rgb, block_id: u32) -> (r: [VoxelVertex; 4])
    requires
        pos_fits(pos),
    ensures
        r@ == face_vertices(face_at(AbsolouteDirection::North, pos, color, block_id)),
{
    let d = AbsolouteDirection::North;
    let r = [
        VoxelVertex {
            position: Pos3 { x: pos.x + 1, y: pos.y, z: pos.z + 1 },
            color,
            block_id,
            direction: d,
        },
        VoxelVertex {
            position: Pos3 { x: pos.x, y: pos.y, z: pos.z + 1 },
            color,
            block_id,
            direction: d,
        },
        VoxelVertex {
            position: Pos3 { x: pos.x + 1, y: pos.y + 1, z: pos.z + 1 },
            color,
            block_id,
            direction: d,
        },
        VoxelVertex {
            position: Pos3 { x: pos.x, y: pos.y + 1, z: pos.z + 1 },
            color,
            block_id,
            direction: d,
        },
    ];
    proof {
        assert(r@ =~= face_vertices(face_at(d, pos, color, block_id)));
    }
    r
}

/// The east face (toward positive x) of the block at `pos`.
pub fn east_face(pos: Pos3, color: Rgb, block_id: u32) -> (r: [VoxelVertex; 4])
    requires
        pos_fits(pos),
    ensures
        r@ == face_vertices(face_at(AbsolouteDirection::East, pos, color, block_id)),
{
    let d = AbsolouteDirection::East;
    let r = [
        VoxelVertex {
            position: Pos3 { x: pos.x + 1, y: pos.y, z: pos.z },
            color,
            block_id,
            direction: d,
        },
        VoxelVertex {
            position: Pos3 { x: pos.x + 1, y: pos.y, z: pos.z + 1 },
            color,
            block_id,
            direction: d,
        },
        VoxelVertex {
            position: Pos3 { x: pos.x + 1, y: pos.y + 1, z: pos.z },
            color,
            block_id,
            direction: d,
        },
        VoxelVertex {
            position: Pos3 { x: pos.x + 1, y: pos.y + 1, z: pos.z + 1 },
            color,
            block_id,
            direction: d,
        },
    ];
    proof {
        assert(r@ =~= face_vertices(face_at(d, pos, color, block_id)));
    }
    r
}

/// The west face (toward negative x) of the block at `pos`.
pub fn west_face(pos: Pos3, color: Rgb, block_id: u32) -> (r: [VoxelVertex; 4])
    requires
        pos_fits(pos),
    ensures
        r@ == face_vertices(face_at(AbsolouteDirection::West, pos, color, block_id)),
{
    let d = AbsolouteDirection::West;
    let r = [
        VoxelVertex {
            position: Pos3 { x: pos.x, y: pos.y, z: pos.z + 1 },
            color,
            block_id,
            direction: d,
        },
        VoxelVertex { position: Pos3 { x: pos.x, y: pos.y, z: pos.z }, color, block_id, direction: d },
        VoxelVertex {
            position: Pos3 { x: pos.x, y: pos.y + 1, z: pos.z + 1 },
            color,
            block_id,
            direction: d,
        },
        VoxelVertex {
            position: Pos3 { x: pos.x, y: pos.y + 1, z: pos.z },
            color,
            block_id,
            direction: d,
        },
    ];
    proof {
        assert(r@ =~= face_vertices(face_at(d, pos, color, block_id)));
    }
    r
}

/// The top face (toward positive y) of the block at `pos`.
pub fn top_face(pos: Pos3, color: Rgb, block_id: u32) -> (r: [VoxelVertex; 4])
    requires
        pos_fits(pos),
    ensures
        r@ == face_vertices(face_at(AbsolouteDirection::Up, pos, color, block_id)),
{
    let d = AbsolouteDirection::Up;
    let r = [
        VoxelVertex {
            position: Pos3 { x: pos.x, y: pos.y + 1, z: pos.z },
            color,
            block_id,
            direction: d,
        },
        VoxelVertex {
            position: Pos3 { x: pos.x + 1, y: pos.y + 1, z: pos.z },
            color,
            block_id,
            direction: d,
        },
        VoxelVertex {
            position: Pos3 { x: pos.x, y: pos.y + 1, z: pos.z + 1 },
            color,
            block_id,
            direction: d,
        },
        VoxelVertex {
            position: Pos3 { x: pos.x + 1, y: pos.y + 1, z: pos.z + 1 },
            color,
            block_id,
            direction: d,
        },
    ];
    proof {
        assert(r@ =~= face_vertices(face_at(d, pos, color, block_id)));
    }
    r
}

/// The bottom face (toward negative y) of the block at `pos`.
pub fn bottom_face(pos: Pos3, color: Rgb, block_id: u32) -> (r: [VoxelVertex; 4])
    requires
        pos_fits(pos),
    ensures
        r@ == face_vertices(face_at(AbsolouteDirection::Down, pos, color, block_id)),
{
    let d = AbsolouteDirection::Down;
    let r = [
        VoxelVertex {
            position: Pos3 { x: pos.x, y: pos.y, z: pos.z + 1 },
            color,
            block_id,
            direction: d,
        },
        VoxelVertex {
            position: Pos3 { x: pos.x + 1, y: pos.y, z: pos.z + 1 },
            color,
            block_id,
            direction: d,
        },
        VoxelVertex { position: Pos3 { x: pos.x, y: pos.y, z: pos.z }, color, block_id, direction: d },
        VoxelVertex {
            position: Pos3 { x: pos.x + 1, y: pos.y, z: pos.z },
            color,
            block_id,
            direction: d,
        },
    ];
    proof {
        assert(r@ =~= face_vertices(face_at(d, pos, color, block_id)));
    }
    r
}

} // verus!
