use vstd::prelude::*;
use crate::chunk::{
    AIR, CHUNK_VOLUME, Chunk, block_at, in_grid, voxel_index, voxel_x, voxel_y, voxel_z,
    lemma_voxel_coords, lemma_voxel_index,
};

verus! {

/// The six axis-aligned faces of a voxel, named after the side they close:
/// below (-Y), above (+Y), left (-Z), right (+Z), front (-X), back (+X).
#[derive(Clone, Copy, Debug, PartialEq, Eq, Structural)]
pub enum FaceDir {
    Below,
    Above,
    Left,
    Right,
    Front,
    Back,
}

/// The order in which the mesher visits the faces of a voxel.
pub open spec fn dir_at(k: int) -> FaceDir {
    if k == 0 {
        FaceDir::Below
    } else if k == 1 {
        FaceDir::Above
    } else if k == 2 {
        FaceDir::Left
    } else if k == 3 {
        FaceDir::Right
    } else if k == 4 {
        FaceDir::Front
    } else {
        FaceDir::Back
    }
}

/// The unit vector that points out of a voxel through face `d`; it is also
/// the step from a voxel to its neighbor across that face.
pub open spec fn outward(d: FaceDir) -> (int, int, int) {
    match d {
        FaceDir::Below => (0, -1, 0),
        FaceDir::Above => (0, 1, 0),
        FaceDir::Left => (0, 0, -1),
        FaceDir::Right => (0, 0, 1),
        FaceDir::Front => (-1, 0, 0),
        FaceDir::Back => (1, 0, 0),
    }
}

/// Corner `j` (of 4) of face `d`, relative to the voxel's minimum corner.
/// Corners run over the face's two in-plane axes, the second one fastest.
pub open spec fn corner_offset(d: FaceDir, j: int) -> (int, int, int) {
    let a = j / 2;
    let b = j % 2;
    match d {
        FaceDir::Below => (a, 0, b),
        FaceDir::Above => (a, 1, b),
        FaceDir::Left => (b, a, 0),
        FaceDir::Right => (b, a, 1),
        FaceDir::Front => (0, a, b),
        FaceDir::Back => (1, a, b),
    }
}

/// The corner used by entry `j` (of 6) of face `d`'s two triangles.
/// Each triangle is wound so that its normal points out of the voxel.
pub open spec fn triangle_corner(d: FaceDir, j: int) -> int {
    let t = match d {
        FaceDir::Below => seq![0int, 2, 1, 3, 1, 2],
        FaceDir::Above => seq![2int, 0, 3, 0, 1, 3],
        FaceDir::Left => seq![1int, 0, 3, 0, 2, 3],
        FaceDir::Right => seq![0int, 1, 3, 2, 0, 3],
        FaceDir::Front => seq![0int, 1, 2, 2, 1, 3],
        FaceDir::Back => seq![1int, 0, 2, 1, 2, 3],
    };
    t[j]
}

/// One emitted face: the voxel it closes, its side, and the voxel's block code.
pub struct Face {
    pub x: int,
    pub y: int,
    pub z: int,
    pub dir: FaceDir,
    pub block: u8,
}

/// Face `d` of local voxel `(x, y, z)` is visible: the voxel is solid and its
/// neighbor across `d` is air. Neighbors outside the grid count as air.
pub open spec fn face_exposed(g: Seq<u8>, x: int, y: int, z: int, d: FaceDir) -> bool {
    let o = outward(d);
    block_at(g, x, y, z) != AIR && block_at(g, x + o.0, y + o.1, z + o.2) == AIR
}

/// The visible faces among the first `k` sides of the voxel at flat position `v`.
pub open spec fn voxel_faces(g: Seq<u8>, v: int, k: nat) -> Seq<Face>
    decreases k,
{
    if k == 0 {
        seq![]
    } else {
        let prev = voxel_faces(g, v, (k - 1) as nat);
        let (x, y, z) = (voxel_x(v), voxel_y(v), voxel_z(v));
        let d = dir_at(k - 1);
        if face_exposed(g, x, y, z, d) {
            prev.push(Face { x, y, z, dir: d, block: g[v] })
        } else {
            prev
        }
    }
}

/// The visible faces of the first `n` voxels of the grid, in grid order.
pub open spec fn faces_upto(g: Seq<u8>, n: nat) -> Seq<Face>
    decreases n,
{
    if n == 0 {
        seq![]
    } else {
        faces_upto(g, (n - 1) as nat) + voxel_faces(g, n - 1, 6)
    }
}

/// Every visible face of a chunk grid, voxel by voxel in grid order, and
/// within one voxel in the order below, above, left, right, front, back.
pub open spec fn chunk_faces(g: Seq<u8>) -> Seq<Face> {
    faces_upto(g, CHUNK_VOLUME as nat)
}

/// One corner of an emitted face.
/// `x, y, z`: the corner in chunk-local grid units.
/// `normal`: the side of the voxel the face closes.
/// `world_x, world_y, world_z`: the world coordinate of the voxel.
/// `u, v`: the texture atlas corner; `u` in 1/256 steps (the block code,
/// plus one on the right edge), `v` is 0 or 1.
#[derive(Clone, Copy, Debug, PartialEq, Eq)]
pub struct MeshVertex {
    pub x: u8,
    pub y: u8,
    pub z: u8,
    pub normal: FaceDir,
    pub world_x: i64,
    pub world_y: i64,
    pub world_z: i64,
    pub u: u16,
    pub v: u16,
}

/// Corner `j` of face `f` of a chunk at chunk coordinate `(cx, cy, cz)`.
pub open spec fn face_vertex(f: Face, j: int, cx: int, cy: int, cz: int) -> MeshVertex {
    let o = corner_offset(f.dir, j);
    MeshVertex {
        x: (f.x + o.0) as u8,
        y: (f.y + o.1) as u8,
        z: (f.z + o.2) as u8,
        normal: f.dir,
        world_x: (cx * 32 + f.x) as i64,
        world_y: (cy * 32 + f.y) as i64,
        world_z: (cz * 32 + f.z) as i64,
        u: (f.block + j % 2) as u16,
        v: (j / 2) as u16,
    }
}

/// The four corners of face `f`.
pub open spec fn face_quad(f: Face, cx: int, cy: int, cz: int) -> Seq<MeshVertex> {
    seq![
        face_vertex(f, 0, cx, cy, cz),
        face_vertex(f, 1, cx, cy, cz),
        face_vertex(f, 2, cx, cy, cz),
        face_vertex(f, 3, cx, cy, cz),
    ]
}

/// The vertex buffer of a face list: four corners per face, in face order.
pub open spec fn mesh_vertices(fs: Seq<Face>, cx: int, cy: int, cz: int) -> Seq<MeshVertex>
    decreases fs.len(),
{
    if fs.len() == 0 {
        seq![]
    } else {
        mesh_vertices(fs.drop_last(), cx, cy, cz) + face_quad(fs.last(), cx, cy, cz)
    }
}

/// The six indices of the `k`-th face, which has side `d`.
pub open spec fn face_indices(k: int, d: FaceDir) -> Seq<u32> {
    Seq::new(6, |j: int| (4 * k + triangle_corner(d, j)) as u32)
}

/// The index buffer of a face list: two triangles per face, in face order.
pub open spec fn mesh_indices(fs: Seq<Face>) -> Seq<u32>
    decreases fs.len(),
{
    if fs.len() == 0 {
        seq![]
    } else {
        mesh_indices(fs.drop_last()) + face_indices(fs.len() - 1, fs.last().dir)
    }
}

/// The triangle mesh of one chunk, in chunk-local coordinates, for the chunk
/// at chunk coordinate `(x, y, z)`.
pub struct ChunkMesh {
    pub x: i32,
    pub y: i32,
    pub z: i32,
    pub vertices: Vec<MeshVertex>,
    pub indices: Vec<u32>,
}

impl ChunkMesh {
    /// This is the mesh of grid `g` for the chunk at `(cx, cy, cz)`.
    pub open spec fn meshes(&self, cx: i32, cy: i32, cz: i32, g: Seq<u8>) -> bool {
        &&& self.x == cx
        &&& self.y == cy
        &&& self.z == cz
        &&& self.vertices@ == mesh_vertices(chunk_faces(g), cx as int, cy as int, cz as int)
        &&& self.indices@ == mesh_indices(chunk_faces(g))
    }

    /// An empty mesh for the chunk at `(x, y, z)`.
    pub fn new(x: i32, y: i32, z: i32) -> (r: ChunkMesh)
        ensures
            r.x == x,
            r.y == y,
            r.z == z,
            r.vertices@.len() == 0,
            r.indices@.len() == 0,
    {
        ChunkMesh { x, y, z, vertices: Vec::new(), indices: Vec::new() }
    }

    /// Appends the four corners and two triangles of side `dir` of local
    /// voxel `(face_x, face_y, face_z)`, which holds `block`; the buffers
    /// hold the faces `fs` so far.
    fn push_face(
        &mut self,
        face_x: u8,
        face_y: u8,
        face_z: u8,
        dir: FaceDir,
        block: u8,
        Ghost(fs): Ghost<Seq<Face>>,
    )
        requires
            fs.len() < 6 * CHUNK_VOLUME,
            in_grid(face_x as int, face_y as int, face_z as int),
            old(self).vertices@ == mesh_vertices(fs, old(self).x as int, old(self).y as int, old(self).z as int),
            old(self).indices@ == mesh_indices(fs),
        ensures
            final(self).x == old(self).x,
            final(self).y == old(self).y,
            final(self).z == old(self).z,
            final(self).vertices@ == mesh_vertices(
                fs.push(Face { x: face_x as int, y: face_y as int, z: face_z as int, dir, block }),
                old(self).x as int,
                old(self).y as int,
                old(self).z as int,
            ),
            final(self).indices@ == mesh_indices(
                fs.push(Face { x: face_x as int, y: face_y as int, z: face_z as int, dir, block }),
            ),
    {
        let ghost f = Face { x: face_x as int, y: face_y as int, z: face_z as int, dir, block };
        let ghost (cx, cy, cz) = (self.x as int, self.y as int, self.z as int);
        proof {
            lemma_mesh_lengths(fs, cx, cy, cz);
            assert(fs.push(f).drop_last() =~= fs);
        }
        let base: u32 = self.vertices.len() as u32;
        let world_x: i64 = self.x as i64 * 32 + face_x as i64;
        let world_y: i64 = self.y as i64 * 32 + face_y as i64;
        let world_z: i64 = self.z as i64 * 32 + face_z as i64;
        let mut j: usize = 0;
        while j < 4
            invariant
                j <= 4,
                in_grid(face_x as int, face_y as int, face_z as int),
                f == (Face { x: face_x as int, y: face_y as int, z: face_z as int, dir, block }),
                self.x == cx,
                self.y == cy,
                self.z == cz,
                self.indices@ == mesh_indices(fs),
                self.vertices@ == mesh_vertices(fs, cx, cy, cz) + face_quad(f, cx, cy, cz).take(j as int),
                world_x == cx * 32 + f.x,
                world_y == cy * 32 + f.y,
                world_z == cz * 32 + f.z,
            decreases 4 - j,
        {
            let (ox, oy, oz) = corner(dir, j);
            let vertex = MeshVertex {
                x: face_x + ox,
                y: face_y + oy,
                z: face_z + oz,
                normal: dir,
                world_x,
                world_y,
                world_z,
                u: block as u16 + (j % 2) as u16,
                v: (j / 2) as u16,
            };
            self.vertices.push(vertex);
            proof {
                assert(vertex == face_vertex(f, j as int, cx, cy, cz));
                assert(face_quad(f, cx, cy, cz)[j as int] == face_vertex(f, j as int, cx, cy, cz)) by {
                    if j == 0 {} else if j == 1 {} else if j == 2 {} else {}
                }
                assert(face_quad(f, cx, cy, cz).take(j + 1) =~= face_quad(f, cx, cy, cz).take(j as int).push(vertex));
            }
            j = j + 1;
        }
        assert(face_quad(f, cx, cy, cz).take(4) =~= face_quad(f, cx, cy, cz));
        let mut t: usize = 0;
        while t < 6
            invariant
                t <= 6,
                self.x == cx,
                self.y == cy,
                self.z == cz,
                self.vertices@ == mesh_vertices(fs.push(f), cx, cy, cz),
                base == 4 * fs.len(),
                base + 3 <= u32::MAX,
                self.indices@ == mesh_indices(fs) + face_indices(fs.len() as int, dir).take(t as int),
            decreases 6 - t,
        {
            let i: u32 = base + triangle_corner_exec(dir, t);
            self.indices.push(i);
            proof {
                assert(face_indices(fs.len() as int, dir).take(t + 1)
                    =~= face_indices(fs.len() as int, dir).take(t as int).push(i));
            }
            t = t + 1;
        }
        assert(face_indices(fs.len() as int, dir).take(6) =~= face_indices(fs.len() as int, dir));
    }
}

/// The buffers of a face list hold four vertices and six indices per face.
pub proof fn lemma_mesh_lengths(fs: Seq<Face>, cx: int, cy: int, cz: int)
    ensures
        mesh_vertices(fs, cx, cy, cz).len() == 4 * fs.len(),
        mesh_indices(fs).len() == 6 * fs.len(),
    decreases fs.len(),
{
    if fs.len() > 0 {
        lemma_mesh_lengths(fs.drop_last(), cx, cy, cz);
    }
}

/// The side visited `k`-th.
pub fn face_dir(k: u8) -> (r: FaceDir)
    requires
        k < 6,
    ensures
        r == dir_at(k as int),
{
    if k == 0 {
        FaceDir::Below
    } else if k == 1 {
        FaceDir::Above
    } else if k == 2 {
        FaceDir::Left
    } else if k == 3 {
        FaceDir::Right
    } else if k == 4 {
        FaceDir::Front
    } else {
        FaceDir::Back
    }
}

/// Corner `j` of face `d`, relative to the voxel's minimum corner.
fn corner(d: FaceDir, j: usize) -> (r: (u8, u8, u8))
    requires
        j < 4,
    ensures
        r.0 == corner_offset(d, j as int).0,
        r.1 == corner_offset(d, j as int).1,
        r.2 == corner_offset(d, j as int).2,
        r.0 <= 1 && r.1 <= 1 && r.2 <= 1,
{
    let a: u8 = (j / 2) as u8;
    let b: u8 = (j % 2) as u8;
    match d {
        FaceDir::Below => (a, 0, b),
        FaceDir::Above => (a, 1, b),
        FaceDir::Left => (b, a, 0),
        FaceDir::Right => (b, a, 1),
        FaceDir::Front => (0, a, b),
        FaceDir::Back => (1, a, b),
    }
}

/// The corner used by entry `j` of face `d`'s two triangles.
fn triangle_corner_exec(d: FaceDir, j: usize) -> (r: u32)
    requires
        j < 6,
    ensures
        r == triangle_corner(d, j as int),
{
    let t: [u32; 6] = match d {
        FaceDir::Below => [0, 2, 1, 3, 1, 2],
        FaceDir::Above => [2, 0, 3, 0, 1, 3],
        FaceDir::Left => [1, 0, 3, 0, 2, 3],
        FaceDir::Right => [0, 1, 3, 2, 0, 3],
        FaceDir::Front => [0, 1, 2, 2, 1, 3],
        FaceDir::Back => [1, 0, 2, 1, 2, 3],
    };
    t[j]
}

/// An air voxel has no visible faces.
pub proof fn lemma_air_voxel_no_faces(g: Seq<u8>, v: int, k: nat)
    requires
        0 <= v < CHUNK_VOLUME,
        g.len() == CHUNK_VOLUME,
        g[v] == AIR,
    ensures
        voxel_faces(g, v, k).len() == 0,
    decreases k,
{
    lemma_voxel_coords(v);
    if k > 0 {
        lemma_air_voxel_no_faces(g, v, (k - 1) as nat);
    }
}

/// A voxel has at most one visible face per side visited.
pub proof fn lemma_voxel_faces_len(g: Seq<u8>, v: int, k: nat)
    ensures
        voxel_faces(g, v, k).len() <= k,
    decreases k,
{
    if k > 0 {
        lemma_voxel_faces_len(g, v, (k - 1) as nat);
    }
}

/// Whether the neighbor of local voxel `(x, y, z)` across face `d` is air;
/// outside the grid it is.
fn neighbor_is_air(chunk: &Chunk, x: usize, y: usize, z: usize, d: FaceDir) -> (r: bool)
    requires
        chunk.wf(),
        in_grid(x as int, y as int, z as int),
    ensures
        r == (block_at(
            chunk.blocks@,
            x + outward(d).0,
            y + outward(d).1,
            z + outward(d).2,
        ) == AIR),
{
    match d {
        FaceDir::Below => y == 0 || chunk.get_block(x, y - 1, z) == AIR,
        FaceDir::Above => y == 31 || chunk.get_block(x, y + 1, z) == AIR,
        FaceDir::Left => z == 0 || chunk.get_block(x, y, z - 1) == AIR,
        FaceDir::Right => z == 31 || chunk.get_block(x, y, z + 1) == AIR,
        FaceDir::Front => x == 0 || chunk.get_block(x - 1, y, z) == AIR,
        FaceDir::Back => x == 31 || chunk.get_block(x + 1, y, z) == AIR,
    }
}

/// Meshes one chunk: for every solid voxel, a quad for each side whose
/// neighbor is air, chunk borders counting as air. Each quad is four
/// vertices and two outward-wound triangles.
pub fn mesh_chunk(chunk: &Chunk) -> (r: ChunkMesh)
    requires
        chunk.wf(),
    ensures
        r.meshes(chunk.x, chunk.y, chunk.z, chunk.blocks@),
{
    let mut mesh = ChunkMesh::new(chunk.x, chunk.y, chunk.z);
    let ghost g = chunk.blocks@;
    let ghost (cx, cy, cz) = (chunk.x as int, chunk.y as int, chunk.z as int);
    assert(mesh.vertices@ =~= mesh_vertices(faces_upto(g, 0), cx, cy, cz));
    assert(mesh.indices@ =~= mesh_indices(faces_upto(g, 0)));
    let mut v: usize = 0;
    while v < CHUNK_VOLUME
        invariant
            chunk.wf(),
            g == chunk.blocks@,
            v <= CHUNK_VOLUME,
            mesh.x == chunk.x,
            mesh.y == chunk.y,
            mesh.z == chunk.z,
            cx == chunk.x,
            cy == chunk.y,
            cz == chunk.z,
            faces_upto(g, v as nat).len() <= 6 * v,
            mesh.vertices@ == mesh_vertices(faces_upto(g, v as nat), cx, cy, cz),
            mesh.indices@ == mesh_indices(faces_upto(g, v as nat)),
        decreases CHUNK_VOLUME - v,
    {
        proof {
            lemma_voxel_coords(v as int);
        }
        let ghost before = faces_upto(g, v as nat);
        let block = chunk.blocks[v];
        if block != AIR {
            let x: usize = v / 1024;
            let y: usize = (v / 32) % 32;
            let z: usize = v % 32;
            assert(block_at(g, x as int, y as int, z as int) == block);
            let mut k: u8 = 0;
            while k < 6
                invariant
                    chunk.wf(),
                    g == chunk.blocks@,
                    v < CHUNK_VOLUME,
                    x == voxel_x(v as int),
                    y == voxel_y(v as int),
                    z == voxel_z(v as int),
                    in_grid(x as int, y as int, z as int),
                    block == g[v as int],
                    block != AIR,
                    block_at(g, x as int, y as int, z as int) == block,
                    k <= 6,
                    mesh.x == chunk.x,
                    mesh.y == chunk.y,
                    mesh.z == chunk.z,
                    cx == chunk.x,
                    cy == chunk.y,
                    cz == chunk.z,
                    before.len() <= 6 * v,
                    mesh.vertices@ == mesh_vertices(before + voxel_faces(g, v as int, k as nat), cx, cy, cz),
                    mesh.indices@ == mesh_indices(before + voxel_faces(g, v as int, k as nat)),
                decreases 6 - k,
            {
                let d = face_dir(k);
                if neighbor_is_air(chunk, x, y, z, d) {
                    let ghost fs = before + voxel_faces(g, v as int, k as nat);
                    proof {
                        lemma_voxel_faces_len(g, v as int, k as nat);
                    }
                    mesh.push_face(x as u8, y as u8, z as u8, d, block, Ghost(fs));
                    proof {
                        let f = Face { x: x as int, y: y as int, z: z as int, dir: d, block };
                        assert(fs.push(f) =~= before + voxel_faces(g, v as int, (k + 1) as nat));
                    }
                } else {
                    assert(voxel_faces(g, v as int, (k + 1) as nat) == voxel_faces(g, v as int, k as nat));
                }
                k = k + 1;
            }
        } else {
            proof {
                lemma_air_voxel_no_faces(g, v as int, 6);
                assert(before + voxel_faces(g, v as int, 6) =~= before);
            }
        }
        proof {
            lemma_voxel_faces_len(g, v as int, 6);
            assert(faces_upto(g, (v + 1) as nat) == before + voxel_faces(g, v as int, 6));
        }
        v = v + 1;
    }
    mesh
}

/// Componentwise difference of two points.
pub open spec fn minus(a: (int, int, int), b: (int, int, int)) -> (int, int, int) {
    (a.0 - b.0, a.1 - b.1, a.2 - b.2)
}

/// Cross product.
pub open spec fn cross(a: (int, int, int), b: (int, int, int)) -> (int, int, int) {
    (a.1 * b.2 - a.2 * b.1, a.2 * b.0 - a.0 * b.2, a.0 * b.1 - a.1 * b.0)
}

/// Dot product.
pub open spec fn dot(a: (int, int, int), b: (int, int, int)) -> int {
    a.0 * b.0 + a.1 * b.1 + a.2 * b.2
}

/// A point given as an array of three coordinates.
pub open spec fn point(p: [i64; 3]) -> (int, int, int) {
    (p[0] as int, p[1] as int, p[2] as int)
}

/// The chunk-local position of a mesh vertex.
pub open spec fn vertex_pos(v: MeshVertex) -> (int, int, int) {
    (v.x as int, v.y as int, v.z as int)
}

/// A triangle of three corner points, wound `a`, `b`, `c`.
#[derive(Clone, Copy, Debug, PartialEq, Eq)]
pub struct Triangle {
    pub a: [i64; 3],
    pub b: [i64; 3],
    pub c: [i64; 3],
}

/// Coordinates small enough for a cross product of differences to fit an `i64`.
pub open spec fn small_point(p: [i64; 3]) -> bool {
    -0x2000_0000 <= p[0] <= 0x2000_0000 && -0x2000_0000 <= p[1] <= 0x2000_0000
        && -0x2000_0000 <= p[2] <= 0x2000_0000
}

impl Triangle {
    /// The triangle wound `a`, `b`, `c`.
    pub fn new(a: [i64; 3], b: [i64; 3], c: [i64; 3]) -> (r: Triangle)
        ensures
            r.a == a,
            r.b == b,
            r.c == c,
    {
        Triangle { a, b, c }
    }

    /// The normal `(b - a) x (c - a)`: its direction is the side the
    /// triangle faces, its length twice the triangle's area.
    pub open spec fn normal_spec(&self) -> (int, int, int) {
        cross(minus(point(self.b), point(self.a)), minus(point(self.c), point(self.a)))
    }

    /// The normal `(b - a) x (c - a)`.
    pub fn normal(&self) -> (r: [i64; 3])
        requires
            small_point(self.a),
            small_point(self.b),
            small_point(self.c),
        ensures
            point(r) == self.normal_spec(),
    {
        let e1: [i64; 3] = [self.b[0] - self.a[0], self.b[1] - self.a[1], self.b[2] - self.a[2]];
        let e2: [i64; 3] = [self.c[0] - self.a[0], self.c[1] - self.a[1], self.c[2] - self.a[2]];
        proof {
            assert(-0x4000_0000 <= e1[0] <= 0x4000_0000 && -0x4000_0000 <= e2[0] <= 0x4000_0000);
            assert(-0x4000_0000 <= e1[1] <= 0x4000_0000 && -0x4000_0000 <= e2[1] <= 0x4000_0000);
            assert(-0x4000_0000 <= e1[2] <= 0x4000_0000 && -0x4000_0000 <= e2[2] <= 0x4000_0000);
            lemma_product_bound(e1[1] as int, e2[2] as int);
            lemma_product_bound(e1[2] as int, e2[1] as int);
            lemma_product_bound(e1[2] as int, e2[0] as int);
            lemma_product_bound(e1[0] as int, e2[2] as int);
            lemma_product_bound(e1[0] as int, e2[1] as int);
            lemma_product_bound(e1[1] as int, e2[0] as int);
        }
        [
            e1[1] * e2[2] - e1[2] * e2[1],
            e1[2] * e2[0] - e1[0] * e2[2],
            e1[0] * e2[1] - e1[1] * e2[0],
        ]
    }
}

proof fn lemma_product_bound(a: int, b: int)
    requires
        -0x4000_0000 <= a <= 0x4000_0000,
        -0x4000_0000 <= b <= 0x4000_0000,
    ensures
        -0x1000_0000_0000_0000 <= a * b <= 0x1000_0000_0000_0000,
{
    assert(-0x1000_0000_0000_0000 <= a * b <= 0x1000_0000_0000_0000) by (nonlinear_arith)
        requires
            -0x4000_0000 <= a <= 0x4000_0000,
            -0x4000_0000 <= b <= 0x4000_0000,
    ;
}

/// Every index of the buffer names a vertex of the buffer.
pub open spec fn indices_in_range(m: ChunkMesh) -> bool {
    forall|i: int| 0 <= i < m.indices@.len() ==> m.indices@[i] < m.vertices@.len()
}

/// Corner `k` (of 3) of triangle `t` of the mesh, in chunk-local units.
pub open spec fn triangle_point(m: ChunkMesh, t: int, k: int) -> (int, int, int) {
    vertex_pos(m.vertices@[m.indices@[3 * t + k] as int])
}

impl ChunkMesh {
    /// Triangle `t` of the mesh, its corners in chunk-local units.
    pub fn triangle(&self, t: usize) -> (r: Triangle)
        requires
            3 * t + 2 < self.indices.len(),
            indices_in_range(*self),
        ensures
            point(r.a) == triangle_point(*self, t as int, 0),
            point(r.b) == triangle_point(*self, t as int, 1),
            point(r.c) == triangle_point(*self, t as int, 2),
    {
        let va = self.vertices[self.indices[3 * t] as usize];
        let vb = self.vertices[self.indices[3 * t + 1] as usize];
        let vc = self.vertices[self.indices[3 * t + 2] as usize];
        Triangle::new(
            [va.x as i64, va.y as i64, va.z as i64],
            [vb.x as i64, vb.y as i64, vb.z as i64],
            [vc.x as i64, vc.y as i64, vc.z as i64],
        )
    }
}

} // verus!
