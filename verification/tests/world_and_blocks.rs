use openworld::blocks::{BlockDefintion, Chunk, ChunkId, Rgb, CHUNK_WIDTH};
use openworld::direction::AbsolouteDirection;
use openworld::quad::{south_face, top_face, Quad};
use openworld::voxel::{Pos3, Voxel, VoxelFaceRenders, VoxelVertex};
use openworld::voxel_mesh::VoxelMesh;
use openworld::world::World;
use openworld::blocks::world_coord_to_chunk_id;

fn rgb(r: u8, g: u8, b: u8) -> Rgb {
    Rgb { r, g, b }
}

fn test_registry() -> Vec<BlockDefintion> {
    vec![
        BlockDefintion { transparency: true, color: rgb(0, 0, 0) },
        BlockDefintion { transparency: false, color: rgb(10, 200, 30) },
        BlockDefintion { transparency: false, color: rgb(120, 80, 40) },
        BlockDefintion { transparency: false, color: rgb(90, 90, 90) },
    ]
}

fn flat_heights(h: usize) -> Vec<usize> {
    vec![h; CHUNK_WIDTH * CHUNK_WIDTH]
}

#[test]
fn chunk_id_of_block_coordinates() {
    assert_eq!(world_coord_to_chunk_id(0, 0), ChunkId { x: 0, z: 0 });
    assert_eq!(world_coord_to_chunk_id(15, 15), ChunkId { x: 0, z: 0 });
    assert_eq!(world_coord_to_chunk_id(16, 31), ChunkId { x: 1, z: 1 });
    assert_eq!(world_coord_to_chunk_id(-1, -16), ChunkId { x: -1, z: -1 });
    assert_eq!(world_coord_to_chunk_id(-17, 160), ChunkId { x: -2, z: 10 });
}

#[test]
fn direction_indices() {
    assert_eq!(AbsolouteDirection::North.index(), 0);
    assert_eq!(AbsolouteDirection::East.index(), 1);
    assert_eq!(AbsolouteDirection::South.index(), 2);
    assert_eq!(AbsolouteDirection::West.index(), 3);
    assert_eq!(AbsolouteDirection::Up.index(), 4);
    assert_eq!(AbsolouteDirection::Down.index(), 5);
}

#[test]
fn flat_world_layers() {
    let heights = flat_heights(5);
    let chunk = Chunk::flat_world(ChunkId { x: 0, z: 0 }, &heights, &test_registry());
    assert_eq!(chunk.get_block(3, 4, 7), 1); // grass on top
    assert_eq!(chunk.get_block(3, 3, 7), 2); // dirt below
    assert_eq!(chunk.get_block(3, 2, 7), 2);
    assert_eq!(chunk.get_block(3, 1, 7), 2);
    assert_eq!(chunk.get_block(3, 0, 7), 3); // stone at the bottom
    assert_eq!(chunk.get_block(3, 5, 7), 0); // air above
    assert_eq!(chunk.get_block(3, 127, 7), 0);
}

#[test]
fn flat_world_zero_height_is_all_air() {
    let heights = flat_heights(0);
    let chunk = Chunk::flat_world(ChunkId { x: 2, z: -2 }, &heights, &test_registry());
    for y in [0usize, 1, 64, 127] {
        assert_eq!(chunk.get_block(0, y, 0), 0);
    }
    assert_eq!(chunk.mesh.verts.len(), 0);
}

#[test]
fn flat_world_mesh_shows_only_the_surface_sides() {
    let heights = flat_heights(5);
    let chunk = Chunk::flat_world(ChunkId { x: 0, z: 0 }, &heights, &test_registry());
    // a flat 16 x 16 slab of height 5: top and bottom of 256 cells each,
    // four sides of 5 x 16 cells each
    let expected_faces = 2 * 256 + 4 * 5 * 16;
    assert_eq!(chunk.mesh.verts.len(), 4 * expected_faces);
    assert_eq!(chunk.mesh.indices.len(), 6 * expected_faces);
}

#[test]
fn world_insert_and_lookup() {
    let reg = test_registry();
    let mut world = World::new();
    assert_eq!(world.chunk_count(), 0);
    let a = ChunkId { x: 0, z: 0 };
    let b = ChunkId { x: -1, z: 3 };
    world.insert_chunk(Chunk::flat_world(a, &flat_heights(2), &reg));
    world.insert_chunk(Chunk::flat_world(b, &flat_heights(7), &reg));
    assert_eq!(world.chunk_count(), 2);
    assert!(world.get_chunk(a).is_some());
    assert!(world.get_chunk(b).is_some());
    assert!(world.get_chunk(ChunkId { x: 9, z: 9 }).is_none());
    let got = world.get_chunk(b).unwrap();
    assert_eq!(got.id, b);
    assert_eq!(got.get_block(0, 6, 0), 1);
}

#[test]
fn world_insert_replaces_same_coordinate() {
    let reg = test_registry();
    let mut world = World::new();
    let id = ChunkId { x: 4, z: 4 };
    world.insert_chunk(Chunk::flat_world(id, &flat_heights(1), &reg));
    world.insert_chunk(Chunk::flat_world(id, &flat_heights(9), &reg));
    assert_eq!(world.chunk_count(), 1);
    let got = world.get_chunk(id).unwrap();
    assert_eq!(got.get_block(0, 8, 0), 1);
}

#[test]
fn world_chunk_meshes_in_insertion_order() {
    let reg = test_registry();
    let mut world = World::new();
    world.insert_chunk(Chunk::flat_world(ChunkId { x: 0, z: 0 }, &flat_heights(0), &reg));
    world.insert_chunk(Chunk::flat_world(ChunkId { x: 1, z: 0 }, &flat_heights(1), &reg));
    let meshes = world.get_chunk_meshes();
    assert_eq!(meshes.len(), 2);
    assert_eq!(meshes[0].verts.len(), 0);
    assert!(meshes[1].verts.len() > 0);
}

#[test]
fn voxel_all_faces() {
    let faces = VoxelFaceRenders {
        north: true,
        south: true,
        east: true,
        west: true,
        top: true,
        bottom: true,
    };
    let vox = Voxel::new(Pos3 { x: 0, y: 0, z: 0 }, rgb(1, 2, 3), faces);
    assert_eq!(vox.vertices.len(), 24);
    assert_eq!(vox.indices.len(), 36);
    // each face's six indices point at its own four vertices
    for k in 0..6u32 {
        let base = 4 * k;
        let ix = &vox.indices[(6 * k) as usize..(6 * k + 6) as usize];
        assert_eq!(ix, &[base, base + 2, base + 1, base + 1, base + 2, base + 3]);
    }
}

#[test]
fn voxel_some_faces() {
    let faces = VoxelFaceRenders {
        north: true,
        south: false,
        east: false,
        west: true,
        top: true,
        bottom: false,
    };
    let vox = Voxel::new(Pos3 { x: 2, y: 3, z: 4 }, rgb(9, 9, 9), faces);
    assert_eq!(vox.vertices.len(), 12);
    assert_eq!(vox.indices.len(), 18);
    assert_eq!(vox.vertices[0].direction, AbsolouteDirection::North);
    assert_eq!(vox.vertices[4].direction, AbsolouteDirection::West);
    assert_eq!(vox.vertices[8].direction, AbsolouteDirection::Up);
    assert_eq!(&vox.indices[6..12], &[4, 6, 5, 5, 6, 7]);
}

#[test]
fn voxel_no_faces() {
    let faces = VoxelFaceRenders {
        north: false,
        south: false,
        east: false,
        west: false,
        top: false,
        bottom: false,
    };
    let vox = Voxel::new(Pos3 { x: 0, y: 0, z: 0 }, rgb(0, 0, 0), faces);
    assert_eq!(vox.vertices.len(), 0);
    assert_eq!(vox.indices.len(), 0);
}

#[test]
fn mesh_from_voxel_keeps_buffers() {
    let faces = VoxelFaceRenders {
        north: true,
        south: true,
        east: false,
        west: false,
        top: false,
        bottom: false,
    };
    let vox = Voxel::new(Pos3 { x: 1, y: 1, z: 1 }, rgb(5, 5, 5), faces);
    let verts = vox.vertices.clone();
    let indices = vox.indices.clone();
    let mesh = VoxelMesh::from_voxel(vox);
    assert_eq!(mesh.verts, verts);
    assert_eq!(mesh.indices, indices);
}

#[test]
fn mesh_from_voxels_shifts_indices() {
    let one_face = VoxelFaceRenders {
        north: true,
        south: false,
        east: false,
        west: false,
        top: false,
        bottom: false,
    };
    let two_faces = VoxelFaceRenders {
        north: true,
        south: true,
        east: false,
        west: false,
        top: false,
        bottom: false,
    };
    let a = Voxel::new(Pos3 { x: 0, y: 0, z: 0 }, rgb(1, 1, 1), one_face);
    let b = Voxel::new(Pos3 { x: 4, y: 0, z: 0 }, rgb(2, 2, 2), two_faces);
    let voxels = vec![a, b];
    let mesh = VoxelMesh::from_voxels(&voxels);
    assert_eq!(mesh.verts.len(), 12);
    assert_eq!(mesh.indices.len(), 18);
    // the second voxel's indices are shifted past the first's four vertices
    assert_eq!(&mesh.indices[0..6], &[0, 2, 1, 1, 2, 3]);
    assert_eq!(&mesh.indices[6..12], &[4, 6, 5, 5, 6, 7]);
    assert_eq!(&mesh.indices[12..18], &[8, 10, 9, 9, 10, 11]);
    for &i in &mesh.indices {
        assert!((i as usize) < mesh.verts.len());
    }
}

#[test]
fn num_indices_reports_length() {
    let faces = VoxelFaceRenders {
        north: true,
        south: true,
        east: true,
        west: false,
        top: false,
        bottom: false,
    };
    let vox = Voxel::new(Pos3 { x: 0, y: 0, z: 0 }, rgb(1, 1, 1), faces);
    let mesh = VoxelMesh::from_voxel(vox);
    assert_eq!(mesh.get_num_indices(), 18);
}

#[test]
fn face_helpers_build_fixed_layouts() {
    let p = Pos3 { x: 10, y: 20, z: 30 };
    let s = south_face(p, rgb(1, 2, 3), 7);
    assert_eq!(s[0].position, Pos3 { x: 10, y: 20, z: 30 });
    assert_eq!(s[1].position, Pos3 { x: 11, y: 20, z: 30 });
    assert_eq!(s[2].position, Pos3 { x: 10, y: 21, z: 30 });
    assert_eq!(s[3].position, Pos3 { x: 11, y: 21, z: 30 });
    assert_eq!(s[0].direction, AbsolouteDirection::South);
    assert_eq!(s[0].block_id, 7);
    let t = top_face(p, rgb(1, 2, 3), 7);
    for v in &t {
        assert_eq!(v.position.y, 21);
        assert_eq!(v.direction, AbsolouteDirection::Up);
    }
}

#[test]
fn quad_wraps_four_vertices() {
    let p = Pos3 { x: 0, y: 0, z: 0 };
    let verts = south_face(p, rgb(1, 1, 1), 1);
    let quad = Quad::new(verts);
    assert_eq!(quad.verts[2].position, Pos3 { x: 0, y: 1, z: 0 });
}

#[test]
fn vertex_new_fills_fields() {
    let v = VoxelVertex::new(
        Pos3 { x: 1, y: 2, z: 3 },
        AbsolouteDirection::East,
        rgb(4, 5, 6),
        9,
    );
    assert_eq!(v.position, Pos3 { x: 1, y: 2, z: 3 });
    assert_eq!(v.direction, AbsolouteDirection::East);
    assert_eq!(v.color, rgb(4, 5, 6));
    assert_eq!(v.block_id, 9);
}
