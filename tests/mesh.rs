use explora::atlas::{Atlas, Image, TileSource};
use explora::block::BlockId;
use explora::chunk::Chunk;
use explora::math::{IVec2, IVec3};
use explora::mesh::{build_chunk_meshes, compute_voxel_indices, create_chunk_mesh, Vertex};

fn atlas() -> Atlas {
    let names = ["dirt", "grass_side", "grass_top", "stone"];
    let sources: Vec<TileSource> = names
        .iter()
        .map(|n| TileSource {
            name: n.to_string(),
            image: Some(Image { width: 2, height: 2, pixels: vec![9; 16] }),
        })
        .collect();
    Atlas::pack(&sources).unwrap()
}

fn mesh_of(chunk: &Chunk, pos: IVec2) -> Vec<Vertex> {
    let mut mesh = Vec::new();
    create_chunk_mesh(chunk, &mut mesh, pos, &atlas());
    mesh
}

#[test]
fn single_stone_block_yields_six_quads() {
    let chunk = Chunk::filled(BlockId::Air).with_block(IVec3::new(5, 5, 5), BlockId::Stone);
    let mesh = mesh_of(&chunk, IVec2::new(0, 0));
    assert_eq!(mesh.len(), 24);
    assert_eq!(compute_voxel_indices(mesh.len()).len(), 36);
    assert!(mesh.iter().all(|v| v.texture_id == 4));
}

#[test]
fn air_chunk_yields_an_empty_mesh() {
    let mesh = mesh_of(&Chunk::filled(BlockId::Air), IVec2::new(0, 0));
    assert!(mesh.is_empty());
    assert!(compute_voxel_indices(mesh.len()).is_empty());
}

#[test]
fn solid_chunk_draws_only_its_boundary() {
    let faces = 2 * 16 * 256 + 2 * 16 * 256 + 2 * 16 * 16;
    let mesh = mesh_of(&Chunk::filled(BlockId::Stone), IVec2::new(0, 0));
    assert_eq!(mesh.len(), faces * 4);
    let flat = mesh_of(&Chunk::flat(), IVec2::new(0, 0));
    assert_eq!(flat.len(), faces * 4);
}

#[test]
fn touching_blocks_hide_their_shared_faces() {
    let chunk = Chunk::filled(BlockId::Air)
        .with_block(IVec3::new(5, 5, 5), BlockId::Stone)
        .with_block(IVec3::new(6, 5, 5), BlockId::Dirt);
    let mesh = mesh_of(&chunk, IVec2::new(0, 0));
    assert_eq!(mesh.len(), 10 * 4);
    assert_eq!(mesh.len() % 4, 0);
}

#[test]
fn quads_follow_face_order_and_winding() {
    let chunk = Chunk::filled(BlockId::Air).with_block(IVec3::new(0, 0, 0), BlockId::Stone);
    let mesh = mesh_of(&chunk, IVec2::new(1, 2));
    let (ox, oy, oz) = (16, 0, 32);
    let corners: [[(i64, i64, i64); 4]; 6] = [
        [(1, 1, 1), (1, 0, 1), (0, 0, 1), (0, 1, 1)],
        [(0, 1, 0), (0, 0, 0), (1, 0, 0), (1, 1, 0)],
        [(1, 1, 0), (1, 0, 0), (1, 0, 1), (1, 1, 1)],
        [(0, 1, 1), (0, 0, 1), (0, 0, 0), (0, 1, 0)],
        [(0, 1, 1), (0, 1, 0), (1, 1, 0), (1, 1, 1)],
        [(0, 0, 0), (0, 0, 1), (1, 0, 1), (1, 0, 0)],
    ];
    assert_eq!(mesh.len(), 24);
    for (f, face) in corners.iter().enumerate() {
        for (k, c) in face.iter().enumerate() {
            assert_eq!(mesh[f * 4 + k], Vertex::new(ox + c.0, oy + c.1, oz + c.2, 4));
        }
    }
}

#[test]
fn grass_block_uses_its_face_table() {
    let chunk = Chunk::filled(BlockId::Air).with_block(IVec3::new(2, 2, 2), BlockId::Grass);
    let mesh = mesh_of(&chunk, IVec2::new(0, 0));
    let ids: Vec<u32> = mesh.chunks(4).map(|q| q[0].texture_id).collect();
    assert_eq!(ids, vec![2, 2, 2, 2, 3, 1]);
}

#[test]
fn chunk_mesh_appends_to_existing_vertices() {
    let chunk = Chunk::filled(BlockId::Air).with_block(IVec3::new(1, 1, 1), BlockId::Stone);
    let mut mesh = vec![Vertex::new(-7, -7, -7, 99)];
    create_chunk_mesh(&chunk, &mut mesh, IVec2::new(-1, 0), &atlas());
    assert_eq!(mesh.len(), 25);
    assert_eq!(mesh[0], Vertex::new(-7, -7, -7, 99));
    assert_eq!(mesh[1], Vertex::new(-16 + 1 + 1, 2, 2, 4));
}

#[test]
fn indices_split_quads_into_two_triangles() {
    assert_eq!(compute_voxel_indices(8), vec![0, 1, 2, 2, 3, 0, 4, 5, 6, 6, 7, 4]);
    assert_eq!(compute_voxel_indices(6).len(), 6);
    assert_eq!(compute_voxel_indices(3).len(), 0);
    let big = compute_voxel_indices(4000);
    assert_eq!(big.len(), 6000);
    assert_eq!(&big[5994..], &[3996, 3997, 3998, 3998, 3999, 3996]);
}

#[test]
fn shared_index_buffer_covers_the_largest_mesh() {
    let one = Chunk::filled(BlockId::Air).with_block(IVec3::new(1, 1, 1), BlockId::Stone);
    let two = Chunk::filled(BlockId::Air)
        .with_block(IVec3::new(1, 1, 1), BlockId::Stone)
        .with_block(IVec3::new(9, 9, 9), BlockId::Stone);
    let chunks = vec![(IVec2::new(0, 0), one), (IVec2::new(1, 0), two), (IVec2::new(2, 0), Chunk::filled(BlockId::Air))];
    let (meshes, indices) = build_chunk_meshes(&chunks, &atlas());
    assert_eq!(meshes.len(), 3);
    assert_eq!(meshes[0].len(), 24);
    assert_eq!(meshes[1].len(), 48);
    assert!(meshes[2].is_empty());
    assert_eq!(indices.len(), 72);
    assert_eq!(meshes[1][24].x, 16 + 9 + 1);
}
