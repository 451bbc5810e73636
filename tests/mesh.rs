use voxel::chunk::{Chunk, AIR};
use voxel::mesh::{mesh_chunk, ChunkMesh, FaceDir, MeshVertex, Triangle};
use voxel::terrain::{DIRT, STONE};

fn put(chunk: &mut Chunk, x: usize, y: usize, z: usize, code: u8) {
    chunk.blocks[x * 1024 + y * 32 + z] = code;
}

fn outward(d: FaceDir) -> [i64; 3] {
    match d {
        FaceDir::Below => [0, -1, 0],
        FaceDir::Above => [0, 1, 0],
        FaceDir::Left => [0, 0, -1],
        FaceDir::Right => [0, 0, 1],
        FaceDir::Front => [-1, 0, 0],
        FaceDir::Back => [1, 0, 0],
    }
}

fn has_face(mesh: &ChunkMesh, world: [i64; 3], dir: FaceDir) -> bool {
    mesh.vertices
        .iter()
        .any(|v| v.normal == dir && [v.world_x, v.world_y, v.world_z] == world)
}

/// Checks every triangle: normal equals its face's outward normal, and each
/// corner lies on the outward side of the voxel center.
fn assert_outward(mesh: &ChunkMesh) {
    assert_eq!(mesh.indices.len() % 3, 0);
    for t in 0..mesh.indices.len() / 3 {
        let tri = mesh.triangle(t);
        let first: MeshVertex = mesh.vertices[mesh.indices[3 * t] as usize];
        let n = tri.normal();
        assert_eq!(n, outward(first.normal));
        let center = [
            2 * (first.world_x - 32 * mesh.x as i64) + 1,
            2 * (first.world_y - 32 * mesh.y as i64) + 1,
            2 * (first.world_z - 32 * mesh.z as i64) + 1,
        ];
        for p in [tri.a, tri.b, tri.c] {
            let off = [2 * p[0] - center[0], 2 * p[1] - center[1], 2 * p[2] - center[2]];
            assert!(n[0] * off[0] + n[1] * off[1] + n[2] * off[2] > 0);
        }
    }
}

#[test]
fn empty_chunk_has_empty_mesh() {
    let chunk = Chunk::new(3, -1, 2);
    let mesh = mesh_chunk(&chunk);
    assert_eq!(mesh.vertices.len(), 0);
    assert_eq!(mesh.indices.len(), 0);
    assert_eq!((mesh.x, mesh.y, mesh.z), (3, -1, 2));
}

#[test]
fn new_mesh_is_empty() {
    let mesh = ChunkMesh::new(1, 2, 3);
    assert_eq!((mesh.x, mesh.y, mesh.z), (1, 2, 3));
    assert!(mesh.vertices.is_empty() && mesh.indices.is_empty());
}

#[test]
fn single_voxel_shows_six_faces() {
    let mut chunk = Chunk::new(0, 0, 0);
    put(&mut chunk, 5, 10, 5, STONE);
    let mesh = mesh_chunk(&chunk);
    assert_eq!(mesh.vertices.len(), 24);
    assert_eq!(mesh.indices.len(), 36);
    for d in [FaceDir::Below, FaceDir::Above, FaceDir::Left, FaceDir::Right, FaceDir::Front, FaceDir::Back] {
        assert!(has_face(&mesh, [5, 10, 5], d));
    }
    assert!(mesh.indices.iter().all(|i| (*i as usize) < mesh.vertices.len()));
}

#[test]
fn border_voxel_faces_are_emitted() {
    let mut chunk = Chunk::new(0, 0, 0);
    put(&mut chunk, 0, 0, 0, DIRT);
    put(&mut chunk, 31, 31, 31, DIRT);
    let mesh = mesh_chunk(&chunk);
    assert_eq!(mesh.vertices.len(), 48);
    assert_eq!(mesh.indices.len(), 72);
}

#[test]
fn shared_face_is_hidden_and_reappears() {
    let mut chunk = Chunk::new(0, 0, 0);
    put(&mut chunk, 5, 10, 5, STONE);
    put(&mut chunk, 6, 10, 5, DIRT);
    let mesh = mesh_chunk(&chunk);
    assert_eq!(mesh.indices.len(), 10 * 6);
    assert!(!has_face(&mesh, [5, 10, 5], FaceDir::Back));
    assert!(!has_face(&mesh, [6, 10, 5], FaceDir::Front));
    put(&mut chunk, 6, 10, 5, AIR);
    let mesh = mesh_chunk(&chunk);
    assert_eq!(mesh.indices.len(), 36);
    assert!(has_face(&mesh, [5, 10, 5], FaceDir::Back));
    put(&mut chunk, 6, 10, 5, DIRT);
    put(&mut chunk, 5, 10, 5, AIR);
    let mesh = mesh_chunk(&chunk);
    assert!(has_face(&mesh, [6, 10, 5], FaceDir::Front));
}

#[test]
fn faces_are_wound_outward() {
    let mut chunk = Chunk::new(2, -3, 1);
    put(&mut chunk, 5, 10, 5, STONE);
    put(&mut chunk, 0, 31, 7, DIRT);
    put(&mut chunk, 0, 30, 7, DIRT);
    let mesh = mesh_chunk(&chunk);
    assert_outward(&mesh);
}

#[test]
fn vertex_attributes() {
    let mut chunk = Chunk::new(1, -1, 0);
    put(&mut chunk, 2, 3, 4, DIRT);
    let mesh = mesh_chunk(&chunk);
    // first face: below, corners (x, z) = (0,0), (0,1), (1,0), (1,1)
    let v: Vec<(u8, u8, u8, u16, u16)> =
        mesh.vertices[0..4].iter().map(|v| (v.x, v.y, v.z, v.u, v.v)).collect();
    assert_eq!(v, vec![(2, 3, 4, 2, 0), (2, 3, 5, 3, 0), (3, 3, 4, 2, 1), (3, 3, 5, 3, 1)]);
    assert_eq!(&mesh.indices[0..6], &[0, 2, 1, 3, 1, 2]);
    let first = mesh.vertices[0];
    assert_eq!(first.normal, FaceDir::Below);
    assert_eq!((first.world_x, first.world_y, first.world_z), (34, -29, 4));
    // second face: above, indices offset by four
    assert_eq!(&mesh.indices[6..12], &[6, 4, 7, 4, 5, 7]);
}

#[test]
fn triangle_normal_is_the_cross_product() {
    let t = Triangle::new([0, 0, 0], [1, 0, 0], [0, 0, 1]);
    assert_eq!(t.normal(), [0, -1, 0]);
    let t = Triangle::new([1, 2, 3], [4, 6, 8], [-1, 0, 5]);
    // (3, 4, 5) x (-2, -2, 2) = (18, -16, 2)
    assert_eq!(t.normal(), [18, -16, 2]);
}
