use vstd::prelude::*;
use std::collections::BTreeMap;
use crate::chunk::{AIR, CHUNK_VOLUME, Chunk, voxel_index, lemma_voxel_index};
use crate::coords::{CHUNK_SIZE, floor_div, floor_mod, get_chunk_coordinates_from_position, local_index};
use crate::mesh::{ChunkMesh, mesh_chunk};
use crate::terrain::{ColumnHeight, STONE, generate_terrain, terrain};

verus! {

/// The coordinate of a chunk, as a key of the world index.
pub open spec fn coord_of(c: Chunk) -> (i32, i32, i32) {
    (c.x, c.y, c.z)
}

/// The live chunks of a world and an index from chunk coordinate to chunk,
/// with at most one chunk per coordinate.
pub struct World {
    seed: u32,
    chunk_index: Vec<Chunk>,
    lookup: BTreeMap<(i32, i32, i32), usize>,
}

impl World {
    /// Every chunk has a full grid, and the index maps exactly the chunks'
    /// coordinates, each to its chunk's position in the list.
    pub closed spec fn wf(&self) -> bool {
        &&& self.chunk_index.len() < usize::MAX
        &&& forall|i: int| 0 <= i < self.chunk_index.len() ==> #[trigger] self.chunk_index@[i].wf()
        &&& forall|i: int|
            0 <= i < self.chunk_index.len() ==> {
                &&& self.lookup@.contains_key(#[trigger] coord_of(self.chunk_index@[i]))
                &&& self.lookup@[coord_of(self.chunk_index@[i])] == i
            }
        &&& forall|c: (i32, i32, i32)| #[trigger]
            self.lookup@.contains_key(c) ==> {
                &&& self.lookup@[c] < self.chunk_index.len()
                &&& coord_of(self.chunk_index@[self.lookup@[c] as int]) == c
            }
    }

    /// The seed the world was created with.
    pub closed spec fn seed_spec(&self) -> u32 {
        self.seed
    }

    /// The seed the world was created with.
    pub fn seed(&self) -> (r: u32)
        ensures
            r == self.seed_spec(),
    {
        self.seed
    }

    /// The chunk coordinates in the order the chunks were inserted.
    pub closed spec fn coords(&self) -> Seq<(i32, i32, i32)> {
        self.chunk_index@.map_values(|c: Chunk| coord_of(c))
    }

    /// The grid of each live chunk, by chunk coordinate.
    pub closed spec fn grids(&self) -> Map<(i32, i32, i32), Seq<u8>> {
        Map::new(
            |c: (i32, i32, i32)| self.lookup@.contains_key(c),
            |c: (i32, i32, i32)| self.chunk_index@[self.lookup@[c] as int].blocks@,
        )
    }

    /// Whether each live chunk has changed since its mesh was last handed out.
    pub closed spec fn dirty(&self) -> Map<(i32, i32, i32), bool> {
        Map::new(
            |c: (i32, i32, i32)| self.lookup@.contains_key(c),
            |c: (i32, i32, i32)| self.chunk_index@[self.lookup@[c] as int].mesh_dirty,
        )
    }

    /// The coordinate list holds each live chunk once, and nothing else.
    pub proof fn lemma_coords(&self)
        requires
            self.wf(),
        ensures
            self.coords().no_duplicates(),
            forall|c: (i32, i32, i32)| self.grids().contains_key(c) <==> self.coords().contains(c),
            self.dirty().dom() == self.grids().dom(),
            self.grids().dom().finite(),
    {
        let cs = self.coords();
        assert forall|i: int, j: int| 0 <= i < cs.len() && 0 <= j < cs.len() && i != j implies cs[i]
            != cs[j] by {
            assert(self.lookup@[coord_of(self.chunk_index@[i])] == i);
            assert(self.lookup@[coord_of(self.chunk_index@[j])] == j);
        }
        assert forall|c: (i32, i32, i32)| self.grids().contains_key(c) <==> cs.contains(c) by {
            if self.lookup@.contains_key(c) {
                assert(cs[self.lookup@[c] as int] == c);
            }
            if cs.contains(c) {
                let i = choose|i: int| 0 <= i < cs.len() && cs[i] == c;
                assert(coord_of(self.chunk_index@[i]) == c);
            }
        }
        assert(self.dirty().dom() =~= self.grids().dom());
        assert(self.grids().dom() =~= cs.to_set()) by {
            assert forall|c: (i32, i32, i32)| self.grids().dom().contains(c) <==> cs.to_set().contains(c) by {
                assert(cs.to_set().contains(c) <==> cs.contains(c));
            }
        }
        vstd::seq_lib::seq_to_set_is_finite(cs);
    }

    /// An empty world with the given seed.
    pub fn new(seed: u32) -> (r: World)
        ensures
            r.wf(),
            r.seed_spec() == seed,
            r.coords().len() == 0,
            r.grids() == Map::<(i32, i32, i32), Seq<u8>>::empty(),
    {
        let r = World { seed, chunk_index: Vec::new(), lookup: BTreeMap::new() };
        assert(r.grids() =~= Map::<(i32, i32, i32), Seq<u8>>::empty());
        r
    }

    /// The number of live chunks.
    pub fn len(&self) -> (r: usize)
        requires
            self.wf(),
        ensures
            r == self.coords().len(),
    {
        self.chunk_index.len()
    }

    /// The `i`-th live chunk, in insertion order.
    pub fn chunk(&self, i: usize) -> (r: &Chunk)
        requires
            self.wf(),
            i < self.coords().len(),
        ensures
            r.wf(),
            coord_of(*r) == self.coords()[i as int],
            r.blocks@ == self.grids()[self.coords()[i as int]],
            r.mesh_dirty == self.dirty()[self.coords()[i as int]],
    {
        &self.chunk_index[i]
    }

    /// Places `chunk` in the world, replacing any chunk at its coordinate.
    /// A new coordinate goes to the end of the chunk list.
    pub fn insert(&mut self, chunk: Chunk)
        requires
            old(self).wf(),
            chunk.wf(),
            old(self).coords().len() + 1 < usize::MAX,
        ensures
            final(self).wf(),
            final(self).seed_spec() == old(self).seed_spec(),
            final(self).grids() == old(self).grids().insert(coord_of(chunk), chunk.blocks@),
            final(self).dirty() == old(self).dirty().insert(coord_of(chunk), chunk.mesh_dirty),
            old(self).grids().contains_key(coord_of(chunk)) ==> final(self).coords() == old(self).coords(),
            !old(self).grids().contains_key(coord_of(chunk)) ==> final(self).coords() == old(self).coords().push(coord_of(chunk)),
    {
        let key = (chunk.x, chunk.y, chunk.z);
        let ghost c = coord_of(chunk);
        let ghost blocks = chunk.blocks@;
        let ghost dirty = chunk.mesh_dirty;
        match self.lookup.get(&key) {
            Some(i) => {
                let i: usize = *i;
                self.chunk_index.set(i, chunk);
                proof {
                    assert forall|j: int| 0 <= j < self.chunk_index.len() implies
                        #[trigger] coord_of(self.chunk_index@[j]) == coord_of(old(self).chunk_index@[j]) by {}
                }
            },
            None => {
                let n: usize = self.chunk_index.len();
                self.chunk_index.push(chunk);
                self.lookup.insert(key, n);
                proof {
                    let n = old(self).chunk_index.len() as int;
                    assert forall|c2: (i32, i32, i32)| #[trigger] self.lookup@.contains_key(c2) implies {
                        &&& self.lookup@[c2] < self.chunk_index.len()
                        &&& coord_of(self.chunk_index@[self.lookup@[c2] as int]) == c2
                    } by {
                        if c2 != c {
                            assert(old(self).lookup@.contains_key(c2));
                        }
                    }
                }
            },
        }
        proof {
            assert(self.grids() =~= old(self).grids().insert(c, blocks));
            assert(self.dirty() =~= old(self).dirty().insert(c, dirty));
            if old(self).lookup@.contains_key(c) {
                assert(self.coords() =~= old(self).coords());
            } else {
                assert(self.coords() =~= old(self).coords().push(c));
            }
        }
    }

    /// Fills the chunk at `(x, y, z)` from its columns' thresholds (see
    /// `generate_terrain`) and places it in the world, replacing any chunk
    /// already there. The chunk is marked as needing a mesh.
    pub fn generate_chunk(&mut self, x: i32, y: i32, z: i32, columns: &Vec<ColumnHeight>)
        requires
            old(self).wf(),
            columns.len() == 1024,
            old(self).coords().len() + 1 < usize::MAX,
        ensures
            final(self).wf(),
            final(self).seed_spec() == old(self).seed_spec(),
            final(self).grids() == old(self).grids().insert((x, y, z), terrain(y as int, columns@)),
            final(self).dirty() == old(self).dirty().insert((x, y, z), true),
            old(self).grids().contains_key((x, y, z)) ==> final(self).coords() == old(self).coords(),
            !old(self).grids().contains_key((x, y, z)) ==> final(self).coords() == old(self).coords().push((x, y, z)),
    {
        let mut chunk = Chunk::new(x, y, z);
        chunk.blocks = generate_terrain(y, columns);
        self.insert(chunk);
    }

    /// Writes `code` at flat grid position `l` of the `i`-th chunk and marks
    /// the chunk as needing a mesh.
    fn write_voxel(&mut self, i: usize, l: usize, code: u8)
        requires
            old(self).wf(),
            i < old(self).coords().len(),
            l < CHUNK_VOLUME,
        ensures
            final(self).wf(),
            final(self).seed_spec() == old(self).seed_spec(),
            final(self).coords() == old(self).coords(),
            final(self).grids() == old(self).grids().insert(
                old(self).coords()[i as int],
                old(self).grids()[old(self).coords()[i as int]].update(l as int, code),
            ),
            final(self).dirty() == old(self).dirty().insert(old(self).coords()[i as int], true),
    {
        let ghost c = coord_of(self.chunk_index@[i as int]);
        proof {
            assert(self.lookup@[c] == i);
            assert(self.chunk_index@[i as int].wf());
        }
        self.chunk_index[i].blocks[l] = code;
        self.chunk_index[i].mesh_dirty = true;
        proof {
            assert forall|j: int|
                #![trigger self.chunk_index@[j]]
                0 <= j < self.chunk_index.len() implies coord_of(self.chunk_index@[j]) == coord_of(
                    old(self).chunk_index@[j],
                ) && self.chunk_index@[j].wf() by {
                assert(old(self).chunk_index@[j].wf());
            }
            assert(self.coords() =~= old(self).coords());
            assert(self.grids() =~= old(self).grids().insert(c, old(self).grids()[c].update(l as int, code)));
            assert(self.dirty() =~= old(self).dirty().insert(c, true));
        }
    }

    /// Meshes the `i`-th chunk and clears its mark.
    fn remesh(&mut self, i: usize) -> (r: ChunkMesh)
        requires
            old(self).wf(),
            i < old(self).coords().len(),
        ensures
            final(self).wf(),
            final(self).seed_spec() == old(self).seed_spec(),
            final(self).coords() == old(self).coords(),
            final(self).grids() == old(self).grids(),
            final(self).dirty() == old(self).dirty().insert(old(self).coords()[i as int], false),
            ({
                let c = old(self).coords()[i as int];
                r.meshes(c.0, c.1, c.2, old(self).grids()[c])
            }),
    {
        let ghost c = coord_of(self.chunk_index@[i as int]);
        proof {
            assert(self.lookup@[c] == i);
        }
        let mesh = mesh_chunk(&self.chunk_index[i]);
        self.chunk_index[i].mesh_dirty = false;
        proof {
            assert forall|j: int|
                #![trigger self.chunk_index@[j]]
                0 <= j < self.chunk_index.len() implies coord_of(self.chunk_index@[j]) == coord_of(
                    old(self).chunk_index@[j],
                ) && self.chunk_index@[j].wf() by {
                assert(old(self).chunk_index@[j].wf());
            }
            assert(self.coords() =~= old(self).coords());
            assert(self.grids() =~= old(self).grids());
            assert(self.dirty() =~= old(self).dirty().insert(c, false));
            assert(self.wf());
        }
        mesh
    }
}

/// The key of a position triple.
pub open spec fn key_of(p: [i32; 3]) -> (i32, i32, i32) {
    (p[0], p[1], p[2])
}

/// Position of the chunk with coordinate `position` in the world's chunk
/// list, or `None` when the world has no chunk there.
pub fn get_chunk_index(position: [i32; 3], world: &World) -> (r: Option<usize>)
    requires
        world.wf(),
    ensures
        match r {
            Some(i) => {
                &&& i < world.coords().len()
                &&& world.coords()[i as int] == key_of(position)
                &&& world.grids().contains_key(key_of(position))
            },
            None => !world.grids().contains_key(key_of(position)),
        },
{
    let key = (position[0], position[1], position[2]);
    match world.lookup.get(&key) {
        Some(i) => Some(*i),
        None => None,
    }
}

/// The mesh of the `chunk`-th chunk of the world.
pub fn create_chunk_mesh(chunk: usize, world: &World) -> (r: ChunkMesh)
    requires
        world.wf(),
        chunk < world.coords().len(),
    ensures
        ({
            let c = world.coords()[chunk as int];
            r.meshes(c.0, c.1, c.2, world.grids()[c])
        }),
{
    proof {
        world.lemma_coords();
        assert(world.lookup@[coord_of(world.chunk_index@[chunk as int])] == chunk);
    }
    mesh_chunk(&world.chunk_index[chunk])
}

/// Generating a chunk a second time at the same coordinate from the same
/// column thresholds leaves the world's grids as the first generation did.
pub proof fn lemma_regeneration_idempotent(
    before: World,
    once: World,
    twice: World,
    x: i32,
    y: i32,
    z: i32,
    columns: Seq<ColumnHeight>,
)
    requires
        once.grids() == before.grids().insert((x, y, z), terrain(y as int, columns)),
        twice.grids() == once.grids().insert((x, y, z), terrain(y as int, columns)),
    ensures
        twice.grids() == once.grids(),
        twice.grids()[(x, y, z)] == terrain(y as int, columns),
{
    assert(twice.grids() =~= once.grids());
}

/// Why an edit was refused.
#[derive(Clone, Copy, Debug, PartialEq, Eq, Structural)]
pub enum EditError {
    /// No generated chunk holds the edited position.
    OutOfBounds,
}

/// The coordinate of the chunk that holds world position `pos`.
pub open spec fn chunk_of(pos: [i32; 3]) -> (i32, i32, i32) {
    (
        floor_div(pos[0] as int, CHUNK_SIZE as int) as i32,
        floor_div(pos[1] as int, CHUNK_SIZE as int) as i32,
        floor_div(pos[2] as int, CHUNK_SIZE as int) as i32,
    )
}

/// The flat grid position of world position `pos` inside its chunk.
pub open spec fn voxel_of(pos: [i32; 3]) -> int {
    voxel_index(
        floor_mod(pos[0] as int, CHUNK_SIZE as int),
        floor_mod(pos[1] as int, CHUNK_SIZE as int),
        floor_mod(pos[2] as int, CHUNK_SIZE as int),
    )
}

/// Meshes every chunk of the world, in chunk-list order, and clears every
/// chunk's mark.
pub fn render_chunk(world: &mut World) -> (r: Vec<ChunkMesh>)
    requires
        old(world).wf(),
    ensures
        final(world).wf(),
        final(world).seed_spec() == old(world).seed_spec(),
        final(world).coords() == old(world).coords(),
        final(world).grids() == old(world).grids(),
        final(world).dirty().dom() == old(world).dirty().dom(),
        forall|c: (i32, i32, i32)| #[trigger] final(world).dirty().contains_key(c) ==> !final(world).dirty()[c],
        r.len() == old(world).coords().len(),
        forall|i: int|
            #![trigger r@[i]]
            0 <= i < r.len() ==> {
                let c = old(world).coords()[i];
                r@[i].meshes(c.0, c.1, c.2, old(world).grids()[c])
            },
{
    let mut meshes: Vec<ChunkMesh> = Vec::new();
    let n = world.len();
    let mut i: usize = 0;
    while i < n
        invariant
            world.wf(),
            i <= n,
            n == old(world).coords().len(),
            world.seed_spec() == old(world).seed_spec(),
            world.coords() == old(world).coords(),
            world.grids() == old(world).grids(),
            world.dirty().dom() == old(world).dirty().dom(),
            forall|j: int| 0 <= j < i ==> !#[trigger] world.dirty()[world.coords()[j]],
            meshes.len() == i,
            forall|j: int|
                #![trigger meshes@[j]]
                0 <= j < i ==> {
                    let c = old(world).coords()[j];
                    meshes@[j].meshes(c.0, c.1, c.2, old(world).grids()[c])
                },
        decreases n - i,
    {
        let mesh = world.remesh(i);
        meshes.push(mesh);
        proof {
            world.lemma_coords();
            assert(world.coords().no_duplicates());
        }
        i = i + 1;
    }
    proof {
        world.lemma_coords();
        assert forall|c: (i32, i32, i32)| #[trigger] world.dirty().contains_key(c) implies !world.dirty()[c] by {
            assert(world.coords().contains(c));
        }
    }
    meshes
}

/// Edits one block: writes `code` at world position `pos` (air removes the
/// block), marks the owning chunk, and remeshes that chunk alone, returning
/// its new mesh. Fails with `OutOfBounds`, changing nothing, when no chunk
/// holds `pos`.
pub fn set_block(world: &mut World, pos: [i32; 3], code: u8) -> (r: Result<ChunkMesh, EditError>)
    requires
        old(world).wf(),
    ensures
        final(world).wf(),
        final(world).seed_spec() == old(world).seed_spec(),
        final(world).coords() == old(world).coords(),
        match r {
            Ok(m) => {
                let c = chunk_of(pos);
                &&& old(world).grids().contains_key(c)
                &&& final(world).grids() == old(world).grids().insert(
                    c,
                    old(world).grids()[c].update(voxel_of(pos), code),
                )
                &&& final(world).dirty() == old(world).dirty().insert(c, false)
                &&& m.meshes(c.0, c.1, c.2, final(world).grids()[c])
            },
            Err(e) => {
                &&& e == EditError::OutOfBounds
                &&& !old(world).grids().contains_key(chunk_of(pos))
                &&& final(world).grids() == old(world).grids()
                &&& final(world).dirty() == old(world).dirty()
            },
        },
{
    let c = get_chunk_coordinates_from_position(pos);
    assert(key_of(c) == chunk_of(pos));
    match get_chunk_index(c, world) {
        None => Err(EditError::OutOfBounds),
        Some(i) => {
            let x: i32 = local_index(pos[0], CHUNK_SIZE);
            let y: i32 = local_index(pos[1], CHUNK_SIZE);
            let z: i32 = local_index(pos[2], CHUNK_SIZE);
            proof {
                lemma_voxel_index(x as int, y as int, z as int);
            }
            let l: usize = x as usize * 1024 + y as usize * 32 + z as usize;
            world.write_voxel(i, l, code);
            Ok(world.remesh(i))
        },
    }
}

/// The block a build action places.
pub const BUILD_BLOCK: u8 = STONE;

/// The builder's edit at world position `position`: `place` puts a stone
/// block there, `destroy` removes the block, and when both are asked the
/// removal wins. Returns the edited chunk's new mesh, or `None` when neither
/// is asked (then nothing changes).
pub fn build(world: &mut World, position: [i32; 3], place: bool, destroy: bool) -> (r: Result<
    Option<ChunkMesh>,
    EditError,
>)
    requires
        old(world).wf(),
    ensures
        final(world).wf(),
        final(world).seed_spec() == old(world).seed_spec(),
        final(world).coords() == old(world).coords(),
        !place && !destroy ==> r == Ok::<Option<ChunkMesh>, EditError>(None) && final(world).grids()
            == old(world).grids() && final(world).dirty() == old(world).dirty(),
        place || destroy ==> match r {
            Ok(Some(m)) => {
                let c = chunk_of(position);
                let code = if destroy { AIR } else { BUILD_BLOCK };
                &&& old(world).grids().contains_key(c)
                &&& final(world).grids() == old(world).grids().insert(
                    c,
                    old(world).grids()[c].update(voxel_of(position), code),
                )
                &&& final(world).dirty() == old(world).dirty().insert(c, false)
                &&& m.meshes(c.0, c.1, c.2, final(world).grids()[c])
            },
            Ok(None) => false,
            Err(e) => {
                &&& e == EditError::OutOfBounds
                &&& !old(world).grids().contains_key(chunk_of(position))
                &&& final(world).grids() == old(world).grids()
                &&& final(world).dirty() == old(world).dirty()
            },
        },
{
    if !place && !destroy {
        return Ok(None);
    }
    let code: u8 = if destroy {
        AIR
    } else {
        BUILD_BLOCK
    };
    match set_block(world, position, code) {
        Ok(m) => Ok(Some(m)),
        Err(e) => Err(e),
    }
}

/// Chunks generated at startup span chunk x and z in `[-SPAWN_RADIUS, SPAWN_RADIUS)`.
pub const SPAWN_RADIUS: i32 = 2;

/// Lowest chunk layer generated at startup.
pub const SPAWN_BOTTOM: i32 = -3;

/// Chunk layer just above the highest one generated at startup.
pub const SPAWN_TOP: i32 = 5;

/// Whether chunk coordinate `c` is generated at startup.
pub open spec fn in_spawn(c: (i32, i32, i32)) -> bool {
    &&& -SPAWN_RADIUS <= c.0 < SPAWN_RADIUS
    &&& SPAWN_BOTTOM <= c.1 < SPAWN_TOP
    &&& -SPAWN_RADIUS <= c.2 < SPAWN_RADIUS
}

/// Position of the column list of chunk column `(c.0, c.2)` among the
/// startup columns, x-major.
pub open spec fn spawn_column(c: (i32, i32, i32)) -> int {
    (c.0 + 2) * 4 + (c.2 + 2)
}

/// Position of chunk `c` in the startup generation order (x, then y, then z).
pub open spec fn spawn_rank(c: (i32, i32, i32)) -> int {
    (c.0 + 2) * 32 + (c.1 + 3) * 4 + (c.2 + 2)
}

/// The grids of the first `k` startup chunks.
pub open spec fn spawn_grids(columns: Seq<Vec<ColumnHeight>>, k: int) -> Map<(i32, i32, i32), Seq<u8>> {
    Map::new(
        |c: (i32, i32, i32)| in_spawn(c) && spawn_rank(c) < k,
        |c: (i32, i32, i32)| terrain(c.1 as int, columns[spawn_column(c)]@),
    )
}

/// The marks of the first `k` startup chunks.
pub open spec fn spawn_marks(k: int) -> Map<(i32, i32, i32), bool> {
    Map::new(|c: (i32, i32, i32)| in_spawn(c) && spawn_rank(c) < k, |c: (i32, i32, i32)| true)
}

/// The startup chunk of rank `k`.
pub open spec fn spawn_at(k: int) -> (i32, i32, i32) {
    ((k / 32 - 2) as i32, ((k / 4) % 8 - 3) as i32, (k % 4 - 2) as i32)
}

/// Startup ranks and startup chunks correspond one to one.
proof fn lemma_spawn_rank(k: int, c: (i32, i32, i32))
    requires
        0 <= k < 128,
    ensures
        in_spawn(spawn_at(k)),
        spawn_rank(spawn_at(k)) == k,
        in_spawn(c) && spawn_rank(c) == k ==> c == spawn_at(k),
{
    let a = k / 4;
    vstd::arithmetic::div_mod::lemma_fundamental_div_mod(k, 4);
    vstd::arithmetic::div_mod::lemma_fundamental_div_mod(a, 8);
    vstd::arithmetic::div_mod::lemma_div_denominator(k, 4, 8);
    if in_spawn(c) && spawn_rank(c) == k {
        let b = (c.0 + 2) * 8 + (c.1 + 3);
        assert(k == b * 4 + (c.2 + 2));
        vstd::arithmetic::div_mod::lemma_fundamental_div_mod_converse(k, 4, b, c.2 + 2);
        vstd::arithmetic::div_mod::lemma_fundamental_div_mod_converse(b, 8, c.0 + 2, c.1 + 3);
    }
}

/// Generates the startup chunks: every chunk coordinate with x and z in
/// `[-SPAWN_RADIUS, SPAWN_RADIUS)` and y in `[SPAWN_BOTTOM, SPAWN_TOP)`, x
/// outermost and z innermost. `columns[(x + 2) * 4 + (z + 2)]` holds the
/// column thresholds of chunk column `(x, z)`, shared by all its layers.
pub fn generate_spawn(world: &mut World, columns: &Vec<Vec<ColumnHeight>>)
    requires
        old(world).wf(),
        old(world).coords().len() + 128 < usize::MAX,
        columns.len() == 16,
        forall|i: int| 0 <= i < 16 ==> (#[trigger] columns@[i]).len() == 1024,
    ensures
        final(world).wf(),
        final(world).seed_spec() == old(world).seed_spec(),
        final(world).grids() == old(world).grids().union_prefer_right(spawn_grids(columns@, 128)),
        final(world).dirty() == old(world).dirty().union_prefer_right(spawn_marks(128)),
{
    assert(old(world).grids().union_prefer_right(spawn_grids(columns@, 0)) =~= old(world).grids());
    assert(old(world).dirty().union_prefer_right(spawn_marks(0)) =~= old(world).dirty());
    let mut k: usize = 0;
    while k < 128
        invariant
            world.wf(),
            k <= 128,
            world.coords().len() <= old(world).coords().len() + k,
            old(world).coords().len() + 128 < usize::MAX,
            world.seed_spec() == old(world).seed_spec(),
            columns.len() == 16,
            forall|i: int| 0 <= i < 16 ==> (#[trigger] columns@[i]).len() == 1024,
            world.grids() == old(world).grids().union_prefer_right(spawn_grids(columns@, k as int)),
            world.dirty() == old(world).dirty().union_prefer_right(spawn_marks(k as int)),
        decreases 128 - k,
    {
        proof {
            lemma_spawn_rank(k as int, (0, 0, 0));
        }
        let x: i32 = (k / 32) as i32 - SPAWN_RADIUS;
        let y: i32 = ((k / 4) % 8) as i32 + SPAWN_BOTTOM;
        let z: i32 = (k % 4) as i32 - SPAWN_RADIUS;
        let ghost c = (x, y, z);
        assert(c == spawn_at(k as int));
        let column: usize = ((x + SPAWN_RADIUS) * 4 + (z + SPAWN_RADIUS)) as usize;
        world.generate_chunk(x, y, z, &columns[column]);
        proof {
            assert forall|c2: (i32, i32, i32)|
                (in_spawn(c2) && spawn_rank(c2) < k + 1) <==> (in_spawn(c2) && spawn_rank(c2) < k || c2 == c) by {
                lemma_spawn_rank(k as int, c2);
            }
            assert(spawn_grids(columns@, k + 1) =~= spawn_grids(columns@, k as int).insert(
                c,
                terrain(y as int, columns@[column as int]@),
            ));
            assert(spawn_marks(k + 1) =~= spawn_marks(k as int).insert(c, true));
            assert(world.grids() =~= old(world).grids().union_prefer_right(spawn_grids(columns@, k + 1)));
            assert(world.dirty() =~= old(world).dirty().union_prefer_right(spawn_marks(k + 1)));
        }
        k = k + 1;
    }
}

} // verus!
