use openworld::blocks::{BlockDefintion, ChunkData, ChunkId, Rgb, CHUNK_HEIGHT, CHUNK_WIDTH};
use openworld::direction::AbsolouteDirection;
use openworld::voxel_mesh::VoxelMesh;

fn rgb(r: u8, g: u8, b: u8) -> Rgb {
    Rgb { r, g, b }
}

fn test_registry() -> Vec<BlockDefintion> {
    vec![
        BlockDefintion { transparency: true, color: rgb(0, 0, 0) },
        BlockDefintion { transparency: false, color: rgb(10, 200, 30) },
        BlockDefintion { transparency: false, color: rgb(120, 80, 40) },
        BlockDefintion { transparency: false, color: rgb(90, 90, 90) },
    ]
}

fn empty_grid() -> ChunkData {
    ChunkData::new()
}

fn origin() -> ChunkId {
    ChunkId { x: 0, z: 0 }
}

fn normal_of(d: AbsolouteDirection) -> (i64, i64, i64) {
    match d {
        AbsolouteDirection::North => (0, 0, 1),
        AbsolouteDirection::South => (0, 0, -1),
        AbsolouteDirection::East => (1, 0, 0),
        AbsolouteDirection::West => (-1, 0, 0),
        AbsolouteDirection::Up => (0, 1, 0),
        AbsolouteDirection::Down => (0, -1, 0),
    }
}

#[test]
fn empty_grid_emits_nothing() {
    let mesh = VoxelMesh::from_blocks(&origin(), &empty_grid(), &test_registry());
    assert_eq!(mesh.verts.len(), 0);
    assert_eq!(mesh.indices.len(), 0);
}

#[test]
fn isolated_block_emits_six_faces() {
    let mut grid = empty_grid();
    grid.set(8, 64, 8, 1);
    let mesh = VoxelMesh::from_blocks(&origin(), &grid, &test_registry());
    assert_eq!(mesh.verts.len(), 24);
    assert_eq!(mesh.indices.len(), 36);
}

#[test]
fn isolated_block_quad_pattern() {
    let mut grid = empty_grid();
    grid.set(8, 64, 8, 1);
    let mesh = VoxelMesh::from_blocks(&origin(), &grid, &test_registry());
    for k in 0..6u32 {
        let base = 4 * k;
        let ix = &mesh.indices[(6 * k) as usize..(6 * k + 6) as usize];
        assert_eq!(ix, &[base, base + 2, base + 1, base + 1, base + 2, base + 3]);
    }
}

#[test]
fn index_validity() {
    let mut grid = empty_grid();
    grid.set(0, 0, 0, 1);
    grid.set(8, 64, 8, 2);
    grid.set(15, 127, 15, 3);
    let mesh = VoxelMesh::from_blocks(&origin(), &grid, &test_registry());
    assert_eq!(mesh.verts.len() % 4, 0);
    assert_eq!(mesh.indices.len(), 6 * (mesh.verts.len() / 4));
    for &i in &mesh.indices {
        assert!((i as usize) < mesh.verts.len());
    }
}

#[test]
fn full_grid_emits_only_boundary_faces() {
    let mut grid = empty_grid();
    for x in 0..CHUNK_WIDTH {
        for y in 0..CHUNK_HEIGHT {
            for z in 0..CHUNK_WIDTH {
                grid.set(x, y, z, 3);
            }
        }
    }
    let mesh = VoxelMesh::from_blocks(&origin(), &grid, &test_registry());
    // 4 side walls of 16 x 128 plus a top and a bottom of 16 x 16
    let boundary_faces = 4 * 16 * 128 + 2 * 16 * 16;
    assert_eq!(mesh.verts.len(), 4 * boundary_faces);
    assert_eq!(mesh.indices.len(), 6 * boundary_faces);
}

#[test]
fn corner_block_keeps_boundary_faces_despite_opaque_neighbors() {
    let mut grid = empty_grid();
    grid.set(0, 0, 0, 1);
    grid.set(1, 0, 0, 2);
    grid.set(0, 1, 0, 2);
    grid.set(0, 0, 1, 2);
    let mesh = VoxelMesh::from_blocks(&origin(), &grid, &test_registry());
    // the corner block's in-grid neighbors are opaque, so only its three
    // chunk-edge faces remain
    let corner_faces: Vec<AbsolouteDirection> = mesh
        .verts
        .chunks(4)
        .filter(|q| q[0].block_id == 1)
        .map(|q| q[0].direction)
        .collect();
    assert_eq!(corner_faces.len(), 3);
    assert!(corner_faces.contains(&AbsolouteDirection::West));
    assert!(corner_faces.contains(&AbsolouteDirection::South));
    assert!(corner_faces.contains(&AbsolouteDirection::Down));
}

#[test]
fn corner_block_alone_emits_all_faces() {
    let mut grid = empty_grid();
    grid.set(0, 0, 0, 1);
    let mesh = VoxelMesh::from_blocks(&origin(), &grid, &test_registry());
    assert_eq!(mesh.verts.len(), 24);
    let dirs: Vec<AbsolouteDirection> = mesh.verts.chunks(4).map(|q| q[0].direction).collect();
    assert!(dirs.contains(&AbsolouteDirection::West));
    assert!(dirs.contains(&AbsolouteDirection::South));
    assert!(dirs.contains(&AbsolouteDirection::Down));
    assert!(dirs.contains(&AbsolouteDirection::East));
    assert!(dirs.contains(&AbsolouteDirection::North));
    assert!(dirs.contains(&AbsolouteDirection::Up));
}

#[test]
fn two_touching_blocks_cull_their_shared_face() {
    let mut grid = empty_grid();
    grid.set(0, 0, 0, 1);
    grid.set(1, 0, 0, 2);
    let mesh = VoxelMesh::from_blocks(&origin(), &grid, &test_registry());
    // five faces per block: the face between them is culled on both sides
    assert_eq!(mesh.verts.len(), 40);
    assert_eq!(mesh.indices.len(), 60);
    let block1_faces: usize = mesh.verts.chunks(4).filter(|q| q[0].block_id == 1).count();
    let block2_faces: usize = mesh.verts.chunks(4).filter(|q| q[0].block_id == 2).count();
    assert_eq!(block1_faces, 5);
    assert_eq!(block2_faces, 5);
    for q in mesh.verts.chunks(4) {
        if q[0].block_id == 1 {
            assert_ne!(q[0].direction, AbsolouteDirection::East);
        }
        if q[0].block_id == 2 {
            assert_ne!(q[0].direction, AbsolouteDirection::West);
        }
    }
}

#[test]
fn faces_carry_registry_color_and_id() {
    let mut grid = empty_grid();
    grid.set(3, 10, 5, 2);
    let mesh = VoxelMesh::from_blocks(&origin(), &grid, &test_registry());
    for v in &mesh.verts {
        assert_eq!(v.block_id, 2);
        assert_eq!(v.color, rgb(120, 80, 40));
    }
}

#[test]
fn world_positions_follow_chunk_coordinates() {
    let mut grid = empty_grid();
    grid.set(0, 0, 0, 1);
    let cid = ChunkId { x: -3, z: 7 };
    let mesh = VoxelMesh::from_blocks(&cid, &grid, &test_registry());
    for v in &mesh.verts {
        assert!(v.position.x == -48 || v.position.x == -47);
        assert!(v.position.y == 0 || v.position.y == 1);
        assert!(v.position.z == 112 || v.position.z == 113);
    }
}

#[test]
fn build_is_deterministic() {
    let mut grid = empty_grid();
    grid.set(0, 0, 0, 1);
    grid.set(1, 0, 0, 2);
    grid.set(8, 64, 8, 3);
    let cid = ChunkId { x: 5, z: -9 };
    let reg = test_registry();
    let mesh1 = VoxelMesh::from_blocks(&cid, &grid, &reg);
    let mesh2 = VoxelMesh::from_blocks(&cid, &grid, &reg);
    assert_eq!(mesh1.verts, mesh2.verts);
    assert_eq!(mesh1.indices, mesh2.indices);
}

#[test]
fn winding_is_counter_clockwise_seen_from_outside() {
    let mut grid = empty_grid();
    grid.set(0, 0, 0, 1);
    grid.set(8, 64, 8, 2);
    grid.set(15, 127, 15, 3);
    let mesh = VoxelMesh::from_blocks(&ChunkId { x: -2, z: 4 }, &grid, &test_registry());
    assert_eq!(mesh.verts.len() % 4, 0);
    for q in mesh.verts.chunks(4) {
        // both triangles, in emitted index order (0,2,1) and (1,2,3)
        for tri in [[0usize, 2, 1], [1, 2, 3]] {
            let a = &q[tri[0]].position;
            let b = &q[tri[1]].position;
            let c = &q[tri[2]].position;
            let u = (b.x - a.x, b.y - a.y, b.z - a.z);
            let v = (c.x - a.x, c.y - a.y, c.z - a.z);
            let cross = (
                u.1 * v.2 - u.2 * v.1,
                u.2 * v.0 - u.0 * v.2,
                u.0 * v.1 - u.1 * v.0,
            );
            assert_eq!(cross, normal_of(q[0].direction));
        }
    }
}
