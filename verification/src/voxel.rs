use vstd::prelude::*;

use crate::blocks::Rgb;
use crate::direction::AbsolouteDirection;
use crate::quad::{
    emit_face, face_at, indices_for, lemma_face_step, lemma_indices_for_valid,
    lemma_vertices_of_len, opt_face, pos_fits, vertices_of, FaceData,
};

verus! {

/// A position in voxel-grid units: one unit is one voxel edge. The outside
/// renderer scales these by its voxel width when it builds its buffers.
#[derive(Copy, Clone, Debug, PartialEq, Eq, Structural)]
pub struct Pos3 {
    pub x: i64,
    pub y: i64,
    pub z: i64,
}

/// One mesh vertex: a corner position in voxel-grid units, the block's
/// registry color, the block id, and the orientation of the face the
/// vertex belongs to.
#[derive(Copy, Clone, Debug, PartialEq, Eq, Structural)]
pub struct VoxelVertex {
    pub position: Pos3,
    pub color: Rgb,
    pub block_id: u32,
    pub direction: AbsolouteDirection,
}

impl VoxelVertex {
    /// Builds a vertex from its parts.
    pub fn new(position: Pos3, direction: AbsolouteDirection, color: Rgb, block_id: u32) -> (r:
        VoxelVertex)
        ensures
            r == (VoxelVertex { position, direction, block_id, color }),
    {
        VoxelVertex { position, direction, block_id, color }
    }
}

/// Which of a voxel's six faces should be rendered.
#[derive(Copy, Clone, Debug, PartialEq, Eq, Structural)]
pub struct VoxelFaceRenders {
    pub north: bool,
    pub south: bool,
    pub east: bool,
    pub west: bool,
    pub top: bool,
    pub bottom: bool,
}

/// The mesh of a single voxel: its grid position, its vertices, and its
/// quad indices.
#[derive(Debug)]
pub struct Voxel {
    pub position: Pos3,
    pub vertices: Vec<VoxelVertex>,
    pub indices: Vec<u32>,
}

impl Voxel {
    /// Whether every index of this voxel points at one of its own vertices.
    pub open spec fn wf(&self) -> bool {
        forall|j: int|
            0 <= j < self.indices@.len() ==> (self.indices@[j] as int) < self.vertices@.len()
    }
}

/// The faces a voxel renders, given its per-face visibility flags, in the
/// fixed emission order north, south, west, east, top, bottom, all with
/// block id 1.
pub open spec fn voxel_faces(pos: Pos3, color: Rgb, faces: VoxelFaceRenders) -> Seq<FaceData> {
    opt_face(faces.north, face_at(AbsolouteDirection::North, pos, color, 1)) + opt_face(
        faces.south,
        face_at(AbsolouteDirection::South, pos, color, 1),
    ) + opt_face(faces.west, face_at(AbsolouteDirection::West, pos, color, 1)) + opt_face(
        faces.east,
        face_at(AbsolouteDirection::East, pos, color, 1),
    ) + opt_face(faces.top, face_at(AbsolouteDirection::Up, pos, color, 1)) + opt_face(
        faces.bottom,
        face_at(AbsolouteDirection::Down, pos, color, 1),
    )
}

impl Voxel {
    /// Builds the mesh of one voxel at `pos`, rendering exactly the faces
    /// that `faces` marks: four vertices per face, and six indices per face
    /// offset by the number of vertices already emitted.
    #[verifier::rlimit(60)]
    #[verifier::spinoff_prover]
    pub fn new(pos: Pos3, color: Rgb, faces: VoxelFaceRenders) -> (r: Voxel)
        requires
            pos_fits(pos),
        ensures
            r.position == pos,
            r.vertices@ == vertices_of(voxel_faces(pos, color, faces)),
            r.indices@ == indices_for(voxel_faces(pos, color, faces).len() as int),
            r.vertices@.len() == 4 * voxel_faces(pos, color, faces).len(),
            r.wf(),
    {
        let mut vertices: Vec<VoxelVertex> = Vec::new();
        let mut indices: Vec<u32> = Vec::new();
        let ghost mut fs = Seq::<FaceData>::empty();
        proof {
            assert(vertices@ =~= Seq::<VoxelVertex>::empty() + vertices_of(fs));
            assert(indices@ =~= indices_for(fs.len() as int));
        }
        let ghost vs_before = vertices@;
        proof {
            lemma_vertices_of_len(fs);
        }
        if faces.north {
            emit_face(
                &mut vertices,
                &mut indices,
                AbsolouteDirection::North,
                pos,
                color,
                1,
                Ghost(fs.len() as int),
            );
        }
        proof {
            lemma_face_step(
                Seq::<VoxelVertex>::empty(),
                vs_before,
                vertices@,
                fs,
                faces.north,
                face_at(AbsolouteDirection::North, pos, color, 1),
            );
            fs = fs + opt_face(faces.north, face_at(AbsolouteDirection::North, pos, color, 1));
        }
        let ghost vs_before = vertices@;
        proof {
            lemma_vertices_of_len(fs);
        }
        if faces.south {
            emit_face(
                &mut vertices,
                &mut indices,
                AbsolouteDirection::South,
                pos,
                color,
                1,
                Ghost(fs.len() as int),
            );
        }
        proof {
            lemma_face_step(
                Seq::<VoxelVertex>::empty(),
                vs_before,
                vertices@,
                fs,
                faces.south,
                face_at(AbsolouteDirection::South, pos, color, 1),
            );
            fs = fs + opt_face(faces.south, face_at(AbsolouteDirection::South, pos, color, 1));
        }
        let ghost vs_before = vertices@;
        proof {
            lemma_vertices_of_len(fs);
        }
        if faces.west {
            emit_face(
                &mut vertices,
                &mut indices,
                AbsolouteDirection::West,
                pos,
                color,
                1,
                Ghost(fs.len() as int),
            );
        }
        proof {
            lemma_face_step(
                Seq::<VoxelVertex>::empty(),
                vs_before,
                vertices@,
                fs,
                faces.west,
                face_at(AbsolouteDirection::West, pos, color, 1),
            );
            fs = fs + opt_face(faces.west, face_at(AbsolouteDirection::West, pos, color, 1));
        }
        let ghost vs_before = vertices@;
        proof {
            lemma_vertices_of_len(fs);
        }
        if faces.east {
            emit_face(
                &mut vertices,
                &mut indices,
                AbsolouteDirection::East,
                pos,
                color,
                1,
                Ghost(fs.len() as int),
            );
        }
        proof {
            lemma_face_step(
                Seq::<VoxelVertex>::empty(),
                vs_before,
                vertices@,
                fs,
                faces.east,
                face_at(AbsolouteDirection::East, pos, color, 1),
            );
            fs = fs + opt_face(faces.east, face_at(AbsolouteDirection::East, pos, color, 1));
        }
        let ghost vs_before = vertices@;
        proof {
            lemma_vertices_of_len(fs);
        }
        if faces.top {
            emit_face(
                &mut vertices,
                &mut indices,
                AbsolouteDirection::Up,
                pos,
                color,
                1,
                Ghost(fs.len() as int),
            );
        }
        proof {
            lemma_face_step(
                Seq::<VoxelVertex>::empty(),
                vs_before,
                vertices@,
                fs,
                faces.top,
                face_at(AbsolouteDirection::Up, pos, color, 1),
            );
            fs = fs + opt_face(faces.top, face_at(AbsolouteDirection::Up, pos, color, 1));
        }
        let ghost vs_before = vertices@;
        proof {
            lemma_vertices_of_len(fs);
        }
        if faces.bottom {
            emit_face(
                &mut vertices,
                &mut indices,
                AbsolouteDirection::Down,
                pos,
                color,
                1,
                Ghost(fs.len() as int),
            );
        }
        proof {
            lemma_face_step(
                Seq::<VoxelVertex>::empty(),
                vs_before,
                vertices@,
                fs,
                faces.bottom,
                face_at(AbsolouteDirection::Down, pos, color, 1),
            );
            fs = fs + opt_face(faces.bottom, face_at(AbsolouteDirection::Down, pos, color, 1));
        }
        proof {
            assert(fs =~= voxel_faces(pos, color, faces));
            assert(Seq::<VoxelVertex>::empty() + vertices_of(fs) =~= vertices_of(fs));
            lemma_vertices_of_len(fs);
            lemma_indices_for_valid(fs.len() as int);
        }
        Voxel { position: pos, vertices, indices }
    }
}

} // verus!
