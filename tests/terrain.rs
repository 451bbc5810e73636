use voxel::chunk::{AIR, CHUNK_VOLUME};
use voxel::terrain::{
    column_block, generate_terrain, ColumnHeight, CAVE_ROCK, DIRT, GRASS, STALAGMITE, STONE,
};

fn col(surface: i32, stalagmite: i32) -> ColumnHeight {
    ColumnHeight { surface, stalagmite }
}

#[test]
fn bands_of_a_column() {
    let c = col(48, 10);
    assert_eq!(column_block(48, c), AIR);
    assert_eq!(column_block(47, c), GRASS);
    assert_eq!(column_block(45, c), GRASS);
    assert_eq!(column_block(44, c), DIRT);
    assert_eq!(column_block(35, c), DIRT);
    assert_eq!(column_block(34, c), STONE);
    assert_eq!(column_block(2, c), STONE);
    assert_eq!(column_block(1, c), CAVE_ROCK);
    assert_eq!(column_block(-5, c), CAVE_ROCK);
    assert_eq!(column_block(-16, c), CAVE_ROCK);
    assert_eq!(column_block(-17, c), AIR);
}

#[test]
fn stalagmite_band_wins_over_the_others() {
    let c = col(48, 30);
    assert_eq!(column_block(-17, c), STALAGMITE);
    assert_eq!(column_block(-30, c), STALAGMITE);
    assert_eq!(column_block(-31, c), AIR);
    assert_eq!(column_block(-16, c), CAVE_ROCK);
}

#[test]
fn halving_rounds_toward_zero() {
    // surface -3: cave rock spans [-67, -1 - 22) = [-67, -23)
    let c = col(-3, 0);
    assert_eq!(column_block(-24, c), CAVE_ROCK);
    assert_eq!(column_block(-23, c), AIR);
    assert_eq!(column_block(-67, c), CAVE_ROCK);
    assert_eq!(column_block(-68, c), AIR);
}

#[test]
fn generated_grid_follows_world_height() {
    let columns = vec![col(48, 10); 1024];
    let low = generate_terrain(0, &columns);
    assert_eq!(low.len(), CHUNK_VOLUME);
    let at = |x: usize, y: usize, z: usize| x * 1024 + y * 32 + z;
    assert_eq!(low[at(3, 1, 4)], CAVE_ROCK);
    assert_eq!(low[at(3, 2, 4)], STONE);
    assert_eq!(low[at(31, 31, 31)], STONE);
    let high = generate_terrain(1, &columns);
    assert_eq!(high[at(0, 2, 0)], STONE);
    assert_eq!(high[at(0, 3, 0)], DIRT);
    assert_eq!(high[at(0, 15, 0)], GRASS);
    assert_eq!(high[at(0, 16, 0)], AIR);
    let sky = generate_terrain(2, &columns);
    assert!(sky.iter().all(|b| *b == AIR));
}

#[test]
fn each_column_uses_its_own_thresholds() {
    let mut columns = vec![col(48, 10); 1024];
    columns[7 * 32 + 9] = col(20, 10);
    let grid = generate_terrain(0, &columns);
    // column (7, 9): stone ends at 7, dirt up to 16, grass up to 19
    assert_eq!(grid[7 * 1024 + 10 * 32 + 9], DIRT);
    assert_eq!(grid[7 * 1024 + 19 * 32 + 9], GRASS);
    assert_eq!(grid[7 * 1024 + 20 * 32 + 9], AIR);
    assert_eq!(grid[7 * 1024 + 20 * 32 + 8], STONE);
}

#[test]
fn regeneration_gives_the_same_grid() {
    let columns: Vec<ColumnHeight> =
        (0..1024).map(|i| col(30 + (i % 37) as i32, (i % 11) as i32)).collect();
    let first = generate_terrain(0, &columns);
    let second = generate_terrain(0, &columns);
    assert_eq!(first, second);
    assert_ne!(first, generate_terrain(1, &columns));
}
