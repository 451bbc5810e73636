use noise::{NoiseFn, OpenSimplex, Seedable};
use voxel::chunk::{Chunk, AIR};
use voxel::mesh::{mesh_chunk, ChunkMesh};
use voxel::terrain::{generate_terrain, ColumnHeight, STONE};
use voxel::world::{
    build, create_chunk_mesh, generate_spawn, get_chunk_index, render_chunk, set_block,
    EditError, World,
};

/// Column thresholds of chunk column `(cx, cz)` from open-simplex noise.
fn noise_columns(seed: u32, cx: i32, cz: i32) -> Vec<ColumnHeight> {
    let noise = OpenSimplex::new().set_seed(seed);
    let mut columns = Vec::with_capacity(1024);
    for x in 0..32 {
        for z in 0..32 {
            let surface = (noise.get([
                ((x + cx * 32) as f32 / 15.) as f64,
                ((z + cz * 32) as f32 / 15.) as f64,
            ]) * 15.
                + 48.0) as i32;
            let stalagmite = (noise.get([
                ((x + cx * 5) as f32 / 5.) as f64,
                ((z + cz * 5) as f32 / 5.) as f64,
            ]) * 42.
                + 15.) as i32;
            columns.push(ColumnHeight { surface, stalagmite });
        }
    }
    columns
}

fn flat_columns(surface: i32) -> Vec<ColumnHeight> {
    vec![ColumnHeight { surface, stalagmite: 0 }; 1024]
}

fn same_mesh(a: &ChunkMesh, b: &ChunkMesh) -> bool {
    (a.x, a.y, a.z) == (b.x, b.y, b.z) && a.vertices == b.vertices && a.indices == b.indices
}

#[test]
fn lookup_finds_generated_chunks_only() {
    let mut world = World::new(7);
    assert_eq!(world.seed(), 7);
    assert_eq!(world.len(), 0);
    assert_eq!(get_chunk_index([0, 0, 0], &world), None);
    world.generate_chunk(0, 0, 0, &flat_columns(40));
    world.generate_chunk(-1, 2, 5, &flat_columns(40));
    assert_eq!(get_chunk_index([0, 0, 0], &world), Some(0));
    assert_eq!(get_chunk_index([-1, 2, 5], &world), Some(1));
    assert_eq!(get_chunk_index([-1, 2, 4], &world), None);
    let c = world.chunk(1);
    assert_eq!((c.x, c.y, c.z), (-1, 2, 5));
    assert!(c.mesh_dirty);
}

#[test]
fn regenerating_a_coordinate_replaces_its_chunk() {
    let mut world = World::new(1);
    world.generate_chunk(0, 0, 0, &flat_columns(40));
    world.generate_chunk(0, 0, 0, &flat_columns(20));
    assert_eq!(world.len(), 1);
    assert_eq!(world.chunk(0).blocks, generate_terrain(0, &flat_columns(20)));
    world.generate_chunk(0, 0, 0, &flat_columns(20));
    assert_eq!(world.len(), 1);
    assert_eq!(world.chunk(0).blocks, generate_terrain(0, &flat_columns(20)));
}

#[test]
fn insert_places_a_chunk() {
    let mut world = World::new(1);
    let mut chunk = Chunk::new(4, 5, 6);
    chunk.blocks[0] = STONE;
    world.insert(chunk);
    assert_eq!(get_chunk_index([4, 5, 6], &world), Some(0));
    assert_eq!(world.chunk(0).blocks[0], STONE);
    world.insert(Chunk::new(4, 5, 6));
    assert_eq!(world.len(), 1);
    assert_eq!(world.chunk(0).blocks[0], AIR);
}

#[test]
fn edit_outside_generated_chunks_is_refused() {
    let mut world = World::new(42);
    world.generate_chunk(0, 0, 0, &flat_columns(40));
    let before = world.chunk(0).blocks.clone();
    assert!(matches!(set_block(&mut world, [-1, 10, 5], AIR), Err(EditError::OutOfBounds)));
    assert!(matches!(set_block(&mut world, [32, 10, 5], STONE), Err(EditError::OutOfBounds)));
    assert_eq!(world.chunk(0).blocks, before);
    assert!(world.chunk(0).mesh_dirty);
}

#[test]
fn edit_scenario_remeshes_only_the_edited_chunk() {
    let mut world = World::new(42);
    world.generate_chunk(0, 0, 0, &noise_columns(42, 0, 0));
    world.generate_chunk(1, 0, 0, &noise_columns(42, 1, 0));
    let meshes = render_chunk(&mut world);
    assert_eq!(meshes.len(), 2);
    let voxel = 5 * 1024 + 10 * 32 + 5;
    assert_ne!(world.chunk(0).blocks[voxel], AIR);
    let other_blocks = world.chunk(1).blocks.clone();

    let mesh = set_block(&mut world, [5, 10, 5], AIR).unwrap();
    assert_eq!(world.chunk(0).blocks[voxel], AIR);
    assert!(!world.chunk(0).mesh_dirty);
    assert!(same_mesh(&mesh, &create_chunk_mesh(0, &world)));
    assert!(mesh
        .vertices
        .iter()
        .all(|v| [v.world_x, v.world_y, v.world_z] != [5, 10, 5]));
    assert!(!same_mesh(&mesh, &meshes[0]));

    assert_eq!(world.chunk(1).blocks, other_blocks);
    assert!(!world.chunk(1).mesh_dirty);
    assert!(same_mesh(&create_chunk_mesh(1, &world), &meshes[1]));
}

#[test]
fn edit_at_negative_positions_uses_floor_division() {
    let mut world = World::new(3);
    world.insert(Chunk::new(-1, -1, -1));
    let mesh = set_block(&mut world, [-32, -1, -33], STONE);
    assert!(matches!(mesh, Err(EditError::OutOfBounds)));
    let mesh = set_block(&mut world, [-32, -1, -1], STONE).unwrap();
    assert_eq!(world.chunk(0).blocks[0 * 1024 + 31 * 32 + 31], STONE);
    assert_eq!(mesh.vertices.len(), 24);
    assert_eq!((mesh.vertices[0].world_x, mesh.vertices[0].world_y), (-32, -1));
}

#[test]
fn render_meshes_every_chunk_and_clears_marks() {
    let mut world = World::new(5);
    world.generate_chunk(0, 1, 0, &flat_columns(40));
    world.generate_chunk(0, 0, 0, &flat_columns(40));
    let meshes = render_chunk(&mut world);
    assert_eq!(meshes.len(), 2);
    assert_eq!((meshes[0].x, meshes[0].y, meshes[0].z), (0, 1, 0));
    assert!(same_mesh(&meshes[1], &mesh_chunk(world.chunk(1))));
    assert!(!world.chunk(0).mesh_dirty && !world.chunk(1).mesh_dirty);
    // a flat top layer: one quad per column on top, plus the chunk's border walls
    assert!(meshes[0].indices.len() > 0);
}

#[test]
fn spawn_generates_the_startup_block_of_chunks() {
    let mut world = World::new(1457087);
    let mut columns = Vec::new();
    for cx in -2..2 {
        for cz in -2..2 {
            columns.push(noise_columns(1457087, cx, cz));
        }
    }
    generate_spawn(&mut world, &columns);
    assert_eq!(world.len(), 4 * 8 * 4);
    let first = world.chunk(0);
    assert_eq!((first.x, first.y, first.z), (-2, -3, -2));
    let second = world.chunk(1);
    assert_eq!((second.x, second.y, second.z), (-2, -3, -1));
    let last = world.chunk(127);
    assert_eq!((last.x, last.y, last.z), (1, 4, 1));
    let i = get_chunk_index([1, 0, -1], &world).unwrap();
    assert_eq!(world.chunk(i).blocks, generate_terrain(0, &columns[3 * 4 + 1]));
    assert_eq!(get_chunk_index([2, 0, 0], &world), None);
    assert_eq!(get_chunk_index([0, 5, 0], &world), None);
}

#[test]
fn build_places_destroys_or_does_nothing() {
    let mut world = World::new(9);
    world.insert(Chunk::new(0, 0, 0));
    assert!(matches!(build(&mut world, [1, 2, 3], false, false), Ok(None)));
    assert_eq!(world.chunk(0).blocks[1 * 1024 + 2 * 32 + 3], AIR);
    let mesh = build(&mut world, [1, 2, 3], true, false).unwrap().unwrap();
    assert_eq!(world.chunk(0).blocks[1 * 1024 + 2 * 32 + 3], STONE);
    assert_eq!(mesh.indices.len(), 36);
    let mesh = build(&mut world, [1, 2, 3], true, true).unwrap().unwrap();
    assert_eq!(world.chunk(0).blocks[1 * 1024 + 2 * 32 + 3], AIR);
    assert_eq!(mesh.indices.len(), 0);
    assert!(matches!(build(&mut world, [40, 2, 3], true, false), Err(EditError::OutOfBounds)));
}
