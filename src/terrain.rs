use vstd::prelude::*;
use crate::chunk::{
    AIR, CHUNK_VOLUME, voxel_x, voxel_y, voxel_z, lemma_voxel_coords,
};

verus! {

/// Block code of the top soil band.
pub const GRASS: u8 = 1;

/// Block code of the band under the top soil.
pub const DIRT: u8 = 2;

/// Block code of the bulk rock.
pub const STONE: u8 = 3;

/// Block code of the stalagmite band, the deepest layer.
pub const STALAGMITE: u8 = 4;

/// Block code of the cave rock band above the stalagmites.
pub const CAVE_ROCK: u8 = 5;

/// Thickness of the grass band below the surface height.
pub const GRASS_DEPTH: i64 = 3;

/// Depth below the surface at which the dirt band ends.
pub const DIRT_DEPTH: i64 = 13;

/// World height at which the stone band starts.
pub const STONE_FLOOR: i64 = -5;

/// Depth below the surface at which the cave rock band starts.
pub const CAVE_DEPTH: i64 = 64;

/// Distance below half the surface height at which the cave rock band ends.
pub const CAVE_CEILING: i64 = 22;

/// The two noise-derived thresholds of one (x, z) column: the surface height
/// and the secondary threshold that bounds the stalagmite band from below.
#[derive(Clone, Copy, Debug, PartialEq, Eq)]
pub struct ColumnHeight {
    pub surface: i32,
    pub stalagmite: i32,
}

/// Integer halving that rounds toward zero.
pub open spec fn half_toward_zero(h: int) -> int {
    if h >= 0 {
        h / 2
    } else {
        -((-h) / 2)
    }
}

/// The block at world height `w` of a column with the given thresholds.
/// Bands are half-open intervals; where they overlap, the later band of
/// grass, dirt, stone, cave rock, stalagmite wins.
pub open spec fn band_block(w: int, surface: int, stalagmite: int) -> u8 {
    if -stalagmite <= w < surface - CAVE_DEPTH {
        STALAGMITE
    } else if surface - CAVE_DEPTH <= w < half_toward_zero(surface) - CAVE_CEILING {
        CAVE_ROCK
    } else if STONE_FLOOR <= w < surface - DIRT_DEPTH {
        STONE
    } else if surface - DIRT_DEPTH <= w < surface - GRASS_DEPTH {
        DIRT
    } else if surface - GRASS_DEPTH <= w < surface {
        GRASS
    } else {
        AIR
    }
}

/// Position of column `(x, z)` in a chunk's column list.
pub open spec fn column_index(x: int, z: int) -> int {
    x * 32 + z
}

/// The block at flat grid position `v` of chunk layer `chunk_y`.
pub open spec fn terrain_voxel(chunk_y: int, columns: Seq<ColumnHeight>, v: int) -> u8 {
    let c = columns[column_index(voxel_x(v), voxel_z(v))];
    band_block(chunk_y * 32 + voxel_y(v), c.surface as int, c.stalagmite as int)
}

/// The grid of a chunk in layer `chunk_y` whose columns have the given thresholds.
pub open spec fn terrain(chunk_y: int, columns: Seq<ColumnHeight>) -> Seq<u8> {
    Seq::new(CHUNK_VOLUME as nat, |v: int| terrain_voxel(chunk_y, columns, v))
}

/// The block at world height `w` of a column.
pub fn column_block(w: i64, column: ColumnHeight) -> (r: u8)
    requires
        i32::MIN * 32 <= w <= i32::MAX * 32 + 31,
    ensures
        r == band_block(w as int, column.surface as int, column.stalagmite as int),
{
    let s: i64 = column.surface as i64;
    let half: i64 = if s >= 0 {
        s / 2
    } else {
        -((-s) / 2)
    };
    if -(column.stalagmite as i64) <= w && w < s - CAVE_DEPTH {
        STALAGMITE
    } else if s - CAVE_DEPTH <= w && w < half - CAVE_CEILING {
        CAVE_ROCK
    } else if STONE_FLOOR <= w && w < s - DIRT_DEPTH {
        STONE
    } else if s - DIRT_DEPTH <= w && w < s - GRASS_DEPTH {
        DIRT
    } else if s - GRASS_DEPTH <= w && w < s {
        GRASS
    } else {
        AIR
    }
}

/// Fills the grid of a chunk in layer `chunk_y`. `columns` holds the thresholds
/// of the chunk's 32 x 32 columns, column `(x, z)` at `x * 32 + z`. Each voxel
/// takes the band of its world height `chunk_y * 32 + y`, so bands are clipped
/// to the chunk and bands that miss it write nothing.
pub fn generate_terrain(chunk_y: i32, columns: &Vec<ColumnHeight>) -> (r: Vec<u8>)
    requires
        columns.len() == 1024,
    ensures
        r@ == terrain(chunk_y as int, columns@),
{
    let mut grid: Vec<u8> = Vec::with_capacity(CHUNK_VOLUME);
    let mut v: usize = 0;
    while v < CHUNK_VOLUME
        invariant
            v <= CHUNK_VOLUME,
            columns.len() == 1024,
            grid@.len() == v,
            forall|i: int| 0 <= i < v ==> grid@[i] == terrain_voxel(chunk_y as int, columns@, i),
        decreases CHUNK_VOLUME - v,
    {
        proof {
            lemma_voxel_coords(v as int);
        }
        let x: usize = v / 1024;
        let y: usize = (v / 32) % 32;
        let z: usize = v % 32;
        let column = columns[x * 32 + z];
        let w: i64 = chunk_y as i64 * 32 + y as i64;
        grid.push(column_block(w, column));
        v = v + 1;
    }
    assert(grid@ =~= terrain(chunk_y as int, columns@));
    grid
}

} // verus!
