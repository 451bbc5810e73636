use vstd::prelude::*;

verus! {

/// Voxels along each edge of a chunk (as a `usize`, for grid indexing).
pub const CHUNK_EDGE: usize = 32;

/// Voxels in one chunk.
pub const CHUNK_VOLUME: usize = 32768;

/// The block code of empty space: no geometry, no occlusion.
pub const AIR: u8 = 0;

/// Whether local coordinates `(x, y, z)` lie inside a chunk's grid.
pub open spec fn in_grid(x: int, y: int, z: int) -> bool {
    0 <= x < 32 && 0 <= y < 32 && 0 <= z < 32
}

/// Position of local voxel `(x, y, z)` in a chunk's flat, x-major grid.
pub open spec fn voxel_index(x: int, y: int, z: int) -> int {
    x * 1024 + y * 32 + z
}

/// Local x coordinate of the voxel stored at flat position `v`.
pub open spec fn voxel_x(v: int) -> int {
    v / 1024
}

/// Local y coordinate of the voxel stored at flat position `v`.
pub open spec fn voxel_y(v: int) -> int {
    (v / 32) % 32
}

/// Local z coordinate of the voxel stored at flat position `v`.
pub open spec fn voxel_z(v: int) -> int {
    v % 32
}

/// The block at local `(x, y, z)` of grid `g`; outside the grid is air.
pub open spec fn block_at(g: Seq<u8>, x: int, y: int, z: int) -> u8 {
    if in_grid(x, y, z) {
        g[voxel_index(x, y, z)]
    } else {
        AIR
    }
}

/// A grid in which every voxel is air.
pub open spec fn empty_grid() -> Seq<u8> {
    Seq::new(CHUNK_VOLUME as nat, |i: int| AIR)
}

/// The coordinates of flat position `v` lie in the grid and map back to `v`.
pub proof fn lemma_voxel_coords(v: int)
    requires
        0 <= v < CHUNK_VOLUME,
    ensures
        in_grid(voxel_x(v), voxel_y(v), voxel_z(v)),
        voxel_index(voxel_x(v), voxel_y(v), voxel_z(v)) == v,
{
    let a = v / 32;
    vstd::arithmetic::div_mod::lemma_fundamental_div_mod(v, 32);
    vstd::arithmetic::div_mod::lemma_fundamental_div_mod(a, 32);
    vstd::arithmetic::div_mod::lemma_div_denominator(v, 32, 32);
    assert(0 <= a < 1024);
    assert(v / 1024 == a / 32);
}

/// Flat position of in-grid coordinates lies in the grid and maps back to them.
pub proof fn lemma_voxel_index(x: int, y: int, z: int)
    requires
        in_grid(x, y, z),
    ensures
        0 <= voxel_index(x, y, z) < CHUNK_VOLUME,
        voxel_x(voxel_index(x, y, z)) == x,
        voxel_y(voxel_index(x, y, z)) == y,
        voxel_z(voxel_index(x, y, z)) == z,
{
    let v = voxel_index(x, y, z);
    let a = x * 32 + y;
    assert(v == a * 32 + z);
    vstd::arithmetic::div_mod::lemma_fundamental_div_mod_converse(v, 32, a, z);
    vstd::arithmetic::div_mod::lemma_fundamental_div_mod_converse(a, 32, x, y);
    vstd::arithmetic::div_mod::lemma_div_denominator(v, 32, 32);
}

/// A cubic region of the world: its chunk coordinate and a dense grid of
/// block codes, stored x-major (`x * 1024 + y * 32 + z`).
pub struct Chunk {
    pub x: i32,
    pub y: i32,
    pub z: i32,
    pub blocks: Vec<u8>,
    /// Set when the grid has changed since a mesh of it was last handed out.
    pub mesh_dirty: bool,
}

impl Chunk {
    /// The grid has the fixed chunk volume.
    pub open spec fn wf(&self) -> bool {
        self.blocks.len() == CHUNK_VOLUME
    }

    /// An all-air chunk at chunk coordinate `(x, y, z)`, not yet meshed.
    pub fn new(x: i32, y: i32, z: i32) -> (r: Chunk)
        ensures
            r.wf(),
            r.x == x,
            r.y == y,
            r.z == z,
            r.blocks@ == empty_grid(),
            r.mesh_dirty,
    {
        let blocks: Vec<u8> = vec![AIR; CHUNK_VOLUME];
        assert(blocks@ =~= empty_grid());
        Chunk { x, y, z, blocks, mesh_dirty: true }
    }

    /// The block at local `(x, y, z)`.
    pub fn get_block(&self, x: usize, y: usize, z: usize) -> (r: u8)
        requires
            self.wf(),
            in_grid(x as int, y as int, z as int),
        ensures
            r == block_at(self.blocks@, x as int, y as int, z as int),
    {
        proof {
            lemma_voxel_index(x as int, y as int, z as int);
        }
        self.blocks[x * 1024 + y * 32 + z]
    }
}

} // verus!
