use vstd::prelude::*;
use vstd::seq_lib::{lemma_seq_concat_contains_all_elements, lemma_seq_contains_after_push};
use crate::chunk::{
    AIR, CHUNK_VOLUME, block_at, in_grid, voxel_index, voxel_x, voxel_y, voxel_z,
    lemma_voxel_coords, lemma_voxel_index,
};
use crate::mesh::{
    ChunkMesh, Face, FaceDir, MeshVertex, chunk_faces, corner_offset, cross, dir_at, dot,
    face_exposed, face_indices, face_quad, face_vertex, faces_upto, indices_in_range, mesh_indices,
    mesh_vertices, minus, outward, triangle_corner, triangle_point, voxel_faces,
    lemma_air_voxel_no_faces, lemma_mesh_lengths, lemma_voxel_faces_len,
};

verus! {

/// Position of side `d` in the order in which the mesher visits sides.
pub open spec fn dir_index(d: FaceDir) -> int {
    match d {
        FaceDir::Below => 0,
        FaceDir::Above => 1,
        FaceDir::Left => 2,
        FaceDir::Right => 3,
        FaceDir::Front => 4,
        FaceDir::Back => 5,
    }
}

/// The side that faces the opposite way.
pub open spec fn opposite(d: FaceDir) -> FaceDir {
    match d {
        FaceDir::Below => FaceDir::Above,
        FaceDir::Above => FaceDir::Below,
        FaceDir::Left => FaceDir::Right,
        FaceDir::Right => FaceDir::Left,
        FaceDir::Front => FaceDir::Back,
        FaceDir::Back => FaceDir::Front,
    }
}

/// The face list holds a face of voxel `(x, y, z)` on side `d`.
pub open spec fn has_face(fs: Seq<Face>, x: int, y: int, z: int, d: FaceDir) -> bool {
    exists|i: int| 0 <= i < fs.len() && fs[i].x == x && fs[i].y == y && fs[i].z == z && fs[i].dir == d
}

/// Which faces the first `k` sides of voxel `v` contribute.
proof fn lemma_voxel_faces_contains(g: Seq<u8>, v: int, k: nat, f: Face)
    requires
        0 <= v < CHUNK_VOLUME,
        g.len() == CHUNK_VOLUME,
        k <= 6,
    ensures
        voxel_faces(g, v, k).contains(f) <==> {
            &&& f.x == voxel_x(v)
            &&& f.y == voxel_y(v)
            &&& f.z == voxel_z(v)
            &&& dir_index(f.dir) < k
            &&& face_exposed(g, f.x, f.y, f.z, f.dir)
            &&& f.block == g[v]
        },
    decreases k,
{
    if k > 0 {
        lemma_voxel_faces_contains(g, v, (k - 1) as nat, f);
        let prev = voxel_faces(g, v, (k - 1) as nat);
        let (x, y, z) = (voxel_x(v), voxel_y(v), voxel_z(v));
        let d = dir_at(k - 1);
        let face = Face { x, y, z, dir: d, block: g[v] };
        if face_exposed(g, x, y, z, d) {
            lemma_seq_contains_after_push(prev, face, f);
        }
        assert(dir_index(f.dir) == k - 1 <==> f.dir == d);
    }
}

/// Which faces the first `n` voxels contribute.
proof fn lemma_faces_upto_contains(g: Seq<u8>, n: nat, f: Face)
    requires
        n <= CHUNK_VOLUME,
        g.len() == CHUNK_VOLUME,
    ensures
        faces_upto(g, n).contains(f) <==> {
            &&& in_grid(f.x, f.y, f.z)
            &&& voxel_index(f.x, f.y, f.z) < n
            &&& face_exposed(g, f.x, f.y, f.z, f.dir)
            &&& f.block == block_at(g, f.x, f.y, f.z)
        },
    decreases n,
{
    if n > 0 {
        let v = n - 1;
        lemma_faces_upto_contains(g, v as nat, f);
        lemma_voxel_faces_contains(g, v, 6, f);
        lemma_seq_concat_contains_all_elements(faces_upto(g, v as nat), voxel_faces(g, v, 6), f);
        lemma_voxel_coords(v);
        if in_grid(f.x, f.y, f.z) {
            lemma_voxel_index(f.x, f.y, f.z);
        }
    }
}

/// A face is emitted exactly when its voxel is solid and the neighbor across
/// it is air (or outside the chunk), and it carries its voxel's block code.
pub proof fn lemma_chunk_faces_contains(g: Seq<u8>, f: Face)
    requires
        g.len() == CHUNK_VOLUME,
    ensures
        chunk_faces(g).contains(f) <==> {
            &&& in_grid(f.x, f.y, f.z)
            &&& face_exposed(g, f.x, f.y, f.z, f.dir)
            &&& f.block == block_at(g, f.x, f.y, f.z)
        },
{
    lemma_faces_upto_contains(g, CHUNK_VOLUME as nat, f);
    if in_grid(f.x, f.y, f.z) {
        lemma_voxel_index(f.x, f.y, f.z);
    }
}

/// The face list has a face on side `d` of voxel `(x, y, z)` exactly when
/// that face is visible.
pub proof fn lemma_has_face(g: Seq<u8>, x: int, y: int, z: int, d: FaceDir)
    requires
        g.len() == CHUNK_VOLUME,
        in_grid(x, y, z),
    ensures
        has_face(chunk_faces(g), x, y, z, d) <==> face_exposed(g, x, y, z, d),
{
    let fs = chunk_faces(g);
    if has_face(fs, x, y, z, d) {
        let i = choose|i: int|
            0 <= i < fs.len() && fs[i].x == x && fs[i].y == y && fs[i].z == z && fs[i].dir == d;
        assert(fs.contains(fs[i]));
        lemma_chunk_faces_contains(g, fs[i]);
    }
    if face_exposed(g, x, y, z, d) {
        let f = Face { x, y, z, dir: d, block: block_at(g, x, y, z) };
        lemma_chunk_faces_contains(g, f);
        let i = choose|i: int| 0 <= i < fs.len() && fs[i] == f;
        assert(fs[i].x == x && fs[i].y == y && fs[i].z == z && fs[i].dir == d);
    }
}

/// Occlusion: two adjacent solid voxels hide the face they share, on both
/// sides; turning either one to air brings the other's face back.
pub proof fn lemma_occlusion(g: Seq<u8>, x: int, y: int, z: int, d: FaceDir)
    requires
        g.len() == CHUNK_VOLUME,
        in_grid(x, y, z),
        in_grid(x + outward(d).0, y + outward(d).1, z + outward(d).2),
        block_at(g, x, y, z) != AIR,
        block_at(g, x + outward(d).0, y + outward(d).1, z + outward(d).2) != AIR,
    ensures
        !has_face(chunk_faces(g), x, y, z, d),
        !has_face(
            chunk_faces(g),
            x + outward(d).0,
            y + outward(d).1,
            z + outward(d).2,
            opposite(d),
        ),
        has_face(
            chunk_faces(
                g.update(voxel_index(x + outward(d).0, y + outward(d).1, z + outward(d).2), AIR),
            ),
            x,
            y,
            z,
            d,
        ),
        has_face(
            chunk_faces(g.update(voxel_index(x, y, z), AIR)),
            x + outward(d).0,
            y + outward(d).1,
            z + outward(d).2,
            opposite(d),
        ),
{
    let o = outward(d);
    let (nx, ny, nz) = (x + o.0, y + o.1, z + o.2);
    lemma_voxel_index(x, y, z);
    lemma_voxel_index(nx, ny, nz);
    assert(outward(opposite(d)) == (-o.0, -o.1, -o.2));
    lemma_has_face(g, x, y, z, d);
    lemma_has_face(g, nx, ny, nz, opposite(d));
    let g1 = g.update(voxel_index(nx, ny, nz), AIR);
    let g2 = g.update(voxel_index(x, y, z), AIR);
    assert(voxel_index(nx, ny, nz) != voxel_index(x, y, z));
    lemma_has_face(g1, x, y, z, d);
    lemma_has_face(g2, nx, ny, nz, opposite(d));
}

/// After a voxel is cleared to air, the grid's faces include none of that voxel's.
pub proof fn lemma_cleared_voxel_has_no_faces(g: Seq<u8>, x: int, y: int, z: int)
    requires
        g.len() == CHUNK_VOLUME,
        in_grid(x, y, z),
    ensures
        forall|d: FaceDir| !has_face(chunk_faces(g.update(voxel_index(x, y, z), AIR)), x, y, z, d),
{
    lemma_voxel_index(x, y, z);
    let cleared = g.update(voxel_index(x, y, z), AIR);
    assert forall|d: FaceDir| !has_face(chunk_faces(cleared), x, y, z, d) by {
        lemma_has_face(cleared, x, y, z, d);
    }
}

/// An all-air chunk has no visible faces, so its mesh is empty.
pub proof fn lemma_empty_chunk_mesh(m: ChunkMesh, g: Seq<u8>)
    requires
        g.len() == CHUNK_VOLUME,
        forall|i: int| 0 <= i < CHUNK_VOLUME ==> g[i] == AIR,
        m.meshes(m.x, m.y, m.z, g),
    ensures
        chunk_faces(g).len() == 0,
        m.vertices@.len() == 0,
        m.indices@.len() == 0,
{
    lemma_air_faces_upto(g, CHUNK_VOLUME as nat);
    lemma_mesh_lengths(chunk_faces(g), m.x as int, m.y as int, m.z as int);
}

proof fn lemma_air_faces_upto(g: Seq<u8>, n: nat)
    requires
        n <= CHUNK_VOLUME,
        g.len() == CHUNK_VOLUME,
        forall|i: int| 0 <= i < CHUNK_VOLUME ==> g[i] == AIR,
    ensures
        faces_upto(g, n).len() == 0,
    decreases n,
{
    if n > 0 {
        lemma_air_faces_upto(g, (n - 1) as nat);
        lemma_air_voxel_no_faces(g, n - 1, 6);
    }
}

/// Every side of a lone solid voxel is visible.
proof fn lemma_lone_voxel_faces(g: Seq<u8>, v: int, k: nat)
    requires
        g.len() == CHUNK_VOLUME,
        0 <= v < CHUNK_VOLUME,
        g[v] != AIR,
        forall|i: int| 0 <= i < CHUNK_VOLUME && i != v ==> g[i] == AIR,
        k <= 6,
    ensures
        voxel_faces(g, v, k).len() == k,
    decreases k,
{
    if k > 0 {
        lemma_lone_voxel_faces(g, v, (k - 1) as nat);
        lemma_voxel_coords(v);
        let (x, y, z) = (voxel_x(v), voxel_y(v), voxel_z(v));
        let o = outward(dir_at(k - 1));
        if in_grid(x + o.0, y + o.1, z + o.2) {
            lemma_voxel_index(x + o.0, y + o.1, z + o.2);
        }
    }
}

proof fn lemma_lone_voxel_faces_upto(g: Seq<u8>, v: int, n: nat)
    requires
        g.len() == CHUNK_VOLUME,
        0 <= v < CHUNK_VOLUME,
        g[v] != AIR,
        forall|i: int| 0 <= i < CHUNK_VOLUME && i != v ==> g[i] == AIR,
        n <= CHUNK_VOLUME,
    ensures
        faces_upto(g, n).len() == if n > v { 6int } else { 0int },
    decreases n,
{
    if n > 0 {
        lemma_lone_voxel_faces_upto(g, v, (n - 1) as nat);
        if n - 1 == v {
            lemma_lone_voxel_faces(g, v, 6);
        } else {
            lemma_air_voxel_no_faces(g, n - 1, 6);
        }
    }
}

/// A chunk with exactly one solid voxel shows all six of its faces: 6 quads,
/// 24 vertices, 12 triangles, 36 indices.
pub proof fn lemma_single_voxel_mesh(m: ChunkMesh, g: Seq<u8>, x: int, y: int, z: int)
    requires
        g.len() == CHUNK_VOLUME,
        in_grid(x, y, z),
        block_at(g, x, y, z) != AIR,
        forall|i: int| 0 <= i < CHUNK_VOLUME && i != voxel_index(x, y, z) ==> g[i] == AIR,
        m.meshes(m.x, m.y, m.z, g),
    ensures
        chunk_faces(g).len() == 6,
        forall|d: FaceDir| has_face(chunk_faces(g), x, y, z, d),
        m.vertices@.len() == 24,
        m.indices@.len() == 36,
{
    lemma_voxel_index(x, y, z);
    lemma_lone_voxel_faces_upto(g, voxel_index(x, y, z), CHUNK_VOLUME as nat);
    lemma_mesh_lengths(chunk_faces(g), m.x as int, m.y as int, m.z as int);
    assert forall|d: FaceDir| has_face(chunk_faces(g), x, y, z, d) by {
        let o = outward(d);
        if in_grid(x + o.0, y + o.1, z + o.2) {
            lemma_voxel_index(x + o.0, y + o.1, z + o.2);
        }
        lemma_has_face(g, x, y, z, d);
    }
}

/// Corner `k` of triangle `h` (0 or 1) of a face on side `d`, relative to
/// the voxel's minimum corner.
pub open spec fn table_corner(d: FaceDir, h: int, k: int) -> (int, int, int) {
    corner_offset(d, triangle_corner(d, 3 * h + k))
}

/// Twice a point, minus the doubled center `(1, 1, 1)` of the unit voxel:
/// the doubled offset of the point from the voxel's center.
pub open spec fn from_center(p: (int, int, int)) -> (int, int, int) {
    (2 * p.0 - 1, 2 * p.1 - 1, 2 * p.2 - 1)
}

/// Both triangles of each side are wound so that `(b - a) x (c - a)` is the
/// side's outward unit normal, and their corners lie on the outward side of
/// the voxel's center.
pub proof fn lemma_face_table(d: FaceDir, h: int)
    requires
        0 <= h < 2,
    ensures
        cross(
            minus(table_corner(d, h, 1), table_corner(d, h, 0)),
            minus(table_corner(d, h, 2), table_corner(d, h, 0)),
        ) == outward(d),
        dot(outward(d), from_center(table_corner(d, h, 0))) == 1,
        dot(outward(d), from_center(table_corner(d, h, 1))) == 1,
        dot(outward(d), from_center(table_corner(d, h, 2))) == 1,
{
    if h == 0 {
        match d {
            FaceDir::Below => {
                assert(table_corner(d, 0, 0) == (0int, 0int, 0int));
                assert(table_corner(d, 0, 1) == (1int, 0int, 0int));
                assert(table_corner(d, 0, 2) == (0int, 0int, 1int));
                assert(cross(minus((1int, 0int, 0int), (0int, 0int, 0int)), minus((0int, 0int, 1int), (0int, 0int, 0int))) == outward(FaceDir::Below)) by (nonlinear_arith);
                assert(dot(outward(FaceDir::Below), from_center((0int, 0int, 0int))) == 1) by (nonlinear_arith);
                assert(dot(outward(FaceDir::Below), from_center((1int, 0int, 0int))) == 1) by (nonlinear_arith);
                assert(dot(outward(FaceDir::Below), from_center((0int, 0int, 1int))) == 1) by (nonlinear_arith);
            },
            FaceDir::Above => {
                assert(table_corner(d, 0, 0) == (1int, 1int, 0int));
                assert(table_corner(d, 0, 1) == (0int, 1int, 0int));
                assert(table_corner(d, 0, 2) == (1int, 1int, 1int));
                assert(cross(minus((0int, 1int, 0int), (1int, 1int, 0int)), minus((1int, 1int, 1int), (1int, 1int, 0int))) == outward(FaceDir::Above)) by (nonlinear_arith);
                assert(dot(outward(FaceDir::Above), from_center((1int, 1int, 0int))) == 1) by (nonlinear_arith);
                assert(dot(outward(FaceDir::Above), from_center((0int, 1int, 0int))) == 1) by (nonlinear_arith);
                assert(dot(outward(FaceDir::Above), from_center((1int, 1int, 1int))) == 1) by (nonlinear_arith);
            },
            FaceDir::Left => {
                assert(table_corner(d, 0, 0) == (1int, 0int, 0int));
                assert(table_corner(d, 0, 1) == (0int, 0int, 0int));
                assert(table_corner(d, 0, 2) == (1int, 1int, 0int));
                assert(cross(minus((0int, 0int, 0int), (1int, 0int, 0int)), minus((1int, 1int, 0int), (1int, 0int, 0int))) == outward(FaceDir::Left)) by (nonlinear_arith);
                assert(dot(outward(FaceDir::Left), from_center((1int, 0int, 0int))) == 1) by (nonlinear_arith);
                assert(dot(outward(FaceDir::Left), from_center((0int, 0int, 0int))) == 1) by (nonlinear_arith);
                assert(dot(outward(FaceDir::Left), from_center((1int, 1int, 0int))) == 1) by (nonlinear_arith);
            },
            FaceDir::Right => {
                assert(table_corner(d, 0, 0) == (0int, 0int, 1int));
                assert(table_corner(d, 0, 1) == (1int, 0int, 1int));
                assert(table_corner(d, 0, 2) == (1int, 1int, 1int));
                assert(cross(minus((1int, 0int, 1int), (0int, 0int, 1int)), minus((1int, 1int, 1int), (0int, 0int, 1int))) == outward(FaceDir::Right)) by (nonlinear_arith);
                assert(dot(outward(FaceDir::Right), from_center((0int, 0int, 1int))) == 1) by (nonlinear_arith);
                assert(dot(outward(FaceDir::Right), from_center((1int, 0int, 1int))) == 1) by (nonlinear_arith);
                assert(dot(outward(FaceDir::Right), from_center((1int, 1int, 1int))) == 1) by (nonlinear_arith);
            },
            FaceDir::Front => {
                assert(table_corner(d, 0, 0) == (0int, 0int, 0int));
                assert(table_corner(d, 0, 1) == (0int, 0int, 1int));
                assert(table_corner(d, 0, 2) == (0int, 1int, 0int));
                assert(cross(minus((0int, 0int, 1int), (0int, 0int, 0int)), minus((0int, 1int, 0int), (0int, 0int, 0int))) == outward(FaceDir::Front)) by (nonlinear_arith);
                assert(dot(outward(FaceDir::Front), from_center((0int, 0int, 0int))) == 1) by (nonlinear_arith);
                assert(dot(outward(FaceDir::Front), from_center((0int, 0int, 1int))) == 1) by (nonlinear_arith);
                assert(dot(outward(FaceDir::Front), from_center((0int, 1int, 0int))) == 1) by (nonlinear_arith);
            },
            FaceDir::Back => {
                assert(table_corner(d, 0, 0) == (1int, 0int, 1int));
                assert(table_corner(d, 0, 1) == (1int, 0int, 0int));
                assert(table_corner(d, 0, 2) == (1int, 1int, 0int));
                assert(cross(minus((1int, 0int, 0int), (1int, 0int, 1int)), minus((1int, 1int, 0int), (1int, 0int, 1int))) == outward(FaceDir::Back)) by (nonlinear_arith);
                assert(dot(outward(FaceDir::Back), from_center((1int, 0int, 1int))) == 1) by (nonlinear_arith);
                assert(dot(outward(FaceDir::Back), from_center((1int, 0int, 0int))) == 1) by (nonlinear_arith);
                assert(dot(outward(FaceDir::Back), from_center((1int, 1int, 0int))) == 1) by (nonlinear_arith);
            },
        }
    } else {
        match d {
            FaceDir::Below => {
                assert(table_corner(d, 1, 0) == (1int, 0int, 1int));
                assert(table_corner(d, 1, 1) == (0int, 0int, 1int));
                assert(table_corner(d, 1, 2) == (1int, 0int, 0int));
                assert(cross(minus((0int, 0int, 1int), (1int, 0int, 1int)), minus((1int, 0int, 0int), (1int, 0int, 1int))) == outward(FaceDir::Below)) by (nonlinear_arith);
                assert(dot(outward(FaceDir::Below), from_center((1int, 0int, 1int))) == 1) by (nonlinear_arith);
                assert(dot(outward(FaceDir::Below), from_center((0int, 0int, 1int))) == 1) by (nonlinear_arith);
                assert(dot(outward(FaceDir::Below), from_center((1int, 0int, 0int))) == 1) by (nonlinear_arith);
            },
            FaceDir::Above => {
                assert(table_corner(d, 1, 0) == (0int, 1int, 0int));
                assert(table_corner(d, 1, 1) == (0int, 1int, 1int));
                assert(table_corner(d, 1, 2) == (1int, 1int, 1int));
                assert(cross(minus((0int, 1int, 1int), (0int, 1int, 0int)), minus((1int, 1int, 1int), (0int, 1int, 0int))) == outward(FaceDir::Above)) by (nonlinear_arith);
                assert(dot(outward(FaceDir::Above), from_center((0int, 1int, 0int))) == 1) by (nonlinear_arith);
                assert(dot(outward(FaceDir::Above), from_center((0int, 1int, 1int))) == 1) by (nonlinear_arith);
                assert(dot(outward(FaceDir::Above), from_center((1int, 1int, 1int))) == 1) by (nonlinear_arith);
            },
            FaceDir::Left => {
                assert(table_corner(d, 1, 0) == (0int, 0int, 0int));
                assert(table_corner(d, 1, 1) == (0int, 1int, 0int));
                assert(table_corner(d, 1, 2) == (1int, 1int, 0int));
                assert(cross(minus((0int, 1int, 0int), (0int, 0int, 0int)), minus((1int, 1int, 0int), (0int, 0int, 0int))) == outward(FaceDir::Left)) by (nonlinear_arith);
                assert(dot(outward(FaceDir::Left), from_center((0int, 0int, 0int))) == 1) by (nonlinear_arith);
                assert(dot(outward(FaceDir::Left), from_center((0int, 1int, 0int))) == 1) by (nonlinear_arith);
                assert(dot(outward(FaceDir::Left), from_center((1int, 1int, 0int))) == 1) by (nonlinear_arith);
            },
            FaceDir::Right => {
                assert(table_corner(d, 1, 0) == (0int, 1int, 1int));
                assert(table_corner(d, 1, 1) == (0int, 0int, 1int));
                assert(table_corner(d, 1, 2) == (1int, 1int, 1int));
                assert(cross(minus((0int, 0int, 1int), (0int, 1int, 1int)), minus((1int, 1int, 1int), (0int, 1int, 1int))) == outward(FaceDir::Right)) by (nonlinear_arith);
                assert(dot(outward(FaceDir::Right), from_center((0int, 1int, 1int))) == 1) by (nonlinear_arith);
                assert(dot(outward(FaceDir::Right), from_center((0int, 0int, 1int))) == 1) by (nonlinear_arith);
                assert(dot(outward(FaceDir::Right), from_center((1int, 1int, 1int))) == 1) by (nonlinear_arith);
            },
            FaceDir::Front => {
                assert(table_corner(d, 1, 0) == (0int, 1int, 0int));
                assert(table_corner(d, 1, 1) == (0int, 0int, 1int));
                assert(table_corner(d, 1, 2) == (0int, 1int, 1int));
                assert(cross(minus((0int, 0int, 1int), (0int, 1int, 0int)), minus((0int, 1int, 1int), (0int, 1int, 0int))) == outward(FaceDir::Front)) by (nonlinear_arith);
                assert(dot(outward(FaceDir::Front), from_center((0int, 1int, 0int))) == 1) by (nonlinear_arith);
                assert(dot(outward(FaceDir::Front), from_center((0int, 0int, 1int))) == 1) by (nonlinear_arith);
                assert(dot(outward(FaceDir::Front), from_center((0int, 1int, 1int))) == 1) by (nonlinear_arith);
            },
            FaceDir::Back => {
                assert(table_corner(d, 1, 0) == (1int, 0int, 1int));
                assert(table_corner(d, 1, 1) == (1int, 1int, 0int));
                assert(table_corner(d, 1, 2) == (1int, 1int, 1int));
                assert(cross(minus((1int, 1int, 0int), (1int, 0int, 1int)), minus((1int, 1int, 1int), (1int, 0int, 1int))) == outward(FaceDir::Back)) by (nonlinear_arith);
                assert(dot(outward(FaceDir::Back), from_center((1int, 0int, 1int))) == 1) by (nonlinear_arith);
                assert(dot(outward(FaceDir::Back), from_center((1int, 1int, 0int))) == 1) by (nonlinear_arith);
                assert(dot(outward(FaceDir::Back), from_center((1int, 1int, 1int))) == 1) by (nonlinear_arith);
            },
        }
    }
}

/// Vertex `4 * k + c` of the buffer is corner `c` of face `k`.
proof fn lemma_mesh_vertices_index(fs: Seq<Face>, cx: int, cy: int, cz: int, k: int, c: int)
    requires
        0 <= k < fs.len(),
        0 <= c < 4,
    ensures
        mesh_vertices(fs, cx, cy, cz)[4 * k + c] == face_vertex(fs[k], c, cx, cy, cz),
    decreases fs.len(),
{
    let prev = fs.drop_last();
    lemma_mesh_lengths(prev, cx, cy, cz);
    if k < fs.len() - 1 {
        lemma_mesh_vertices_index(prev, cx, cy, cz, k, c);
    } else {
        let q = face_quad(fs.last(), cx, cy, cz);
        assert(q[c] == face_vertex(fs[k], c, cx, cy, cz)) by {
            if c == 0 {} else if c == 1 {} else if c == 2 {} else {}
        }
    }
}

/// Index `6 * k + j` of the buffer is entry `j` of face `k`'s triangles.
proof fn lemma_mesh_indices_index(fs: Seq<Face>, k: int, j: int)
    requires
        0 <= k < fs.len(),
        0 <= j < 6,
    ensures
        mesh_indices(fs)[6 * k + j] == (4 * k + triangle_corner(fs[k].dir, j)) as u32,
    decreases fs.len(),
{
    let prev = fs.drop_last();
    lemma_mesh_lengths(prev, 0, 0, 0);
    if k < fs.len() - 1 {
        lemma_mesh_indices_index(prev, k, j);
    } else {
        assert(face_indices(k, fs[k].dir)[j] == (4 * k + triangle_corner(fs[k].dir, j)) as u32);
    }
}

/// A grid has at most six visible faces per voxel.
pub proof fn lemma_faces_upto_len(g: Seq<u8>, n: nat)
    ensures
        faces_upto(g, n).len() <= 6 * n,
    decreases n,
{
    if n > 0 {
        lemma_faces_upto_len(g, (n - 1) as nat);
        lemma_voxel_faces_len(g, n - 1, 6);
    }
}

/// Every emitted face lies in the grid.
proof fn lemma_chunk_faces_in_grid(g: Seq<u8>, i: int)
    requires
        g.len() == CHUNK_VOLUME,
        0 <= i < chunk_faces(g).len(),
    ensures
        in_grid(chunk_faces(g)[i].x, chunk_faces(g)[i].y, chunk_faces(g)[i].z),
{
    assert(chunk_faces(g).contains(chunk_faces(g)[i]));
    lemma_chunk_faces_contains(g, chunk_faces(g)[i]);
}

/// The doubled center, in chunk-local units, of the voxel that vertex `v` of
/// the mesh of chunk `(cx, cy, cz)` belongs to.
pub open spec fn voxel_center2(v: MeshVertex, cx: int, cy: int, cz: int) -> (int, int, int) {
    (
        2 * (v.world_x - 32 * cx) + 1,
        2 * (v.world_y - 32 * cy) + 1,
        2 * (v.world_z - 32 * cz) + 1,
    )
}

/// `(b - a) x (c - a)` for triangle `t` of the mesh.
pub open spec fn triangle_normal(m: ChunkMesh, t: int) -> (int, int, int) {
    cross(
        minus(triangle_point(m, t, 1), triangle_point(m, t, 0)),
        minus(triangle_point(m, t, 2), triangle_point(m, t, 0)),
    )
}

/// Triangle `t` of the mesh is wound outward: its corners belong to one face
/// of one voxel, its normal is that face's outward unit normal, and corner
/// `k` lies on the side of the voxel's center that the normal points to.
pub open spec fn wound_outward(m: ChunkMesh, t: int, k: int) -> bool {
    let first = m.vertices@[m.indices@[3 * t] as int];
    let corner = m.vertices@[m.indices@[3 * t + k] as int];
    let p = triangle_point(m, t, k);
    &&& corner.normal == first.normal
    &&& corner.world_x == first.world_x
    &&& corner.world_y == first.world_y
    &&& corner.world_z == first.world_z
    &&& triangle_normal(m, t) == outward(first.normal)
    &&& dot(
        triangle_normal(m, t),
        minus((2 * p.0, 2 * p.1, 2 * p.2), voxel_center2(first, m.x as int, m.y as int, m.z as int)),
    ) > 0
}

/// Corner `e` of triangle `t = 2 * k + h` is corner `table_corner(d, h, e)`
/// of face `k`.
proof fn lemma_triangle_corner(m: ChunkMesh, g: Seq<u8>, k: int, h: int, e: int)
    requires
        g.len() == CHUNK_VOLUME,
        m.meshes(m.x, m.y, m.z, g),
        0 <= k < chunk_faces(g).len(),
        0 <= h < 2,
        0 <= e < 3,
    ensures
        ({
            let f = chunk_faces(g)[k];
            let t = 2 * k + h;
            &&& m.vertices@[m.indices@[3 * t + e] as int] == face_vertex(
                f,
                triangle_corner(f.dir, 3 * h + e),
                m.x as int,
                m.y as int,
                m.z as int,
            )
            &&& triangle_point(m, t, e) == (
                f.x + table_corner(f.dir, h, e).0,
                f.y + table_corner(f.dir, h, e).1,
                f.z + table_corner(f.dir, h, e).2,
            )
        }),
{
    let fs = chunk_faces(g);
    let f = fs[k];
    let d = f.dir;
    let t = 2 * k + h;
    lemma_faces_upto_len(g, CHUNK_VOLUME as nat);
    lemma_chunk_faces_in_grid(g, k);
    assert(3 * t + e == 6 * k + (3 * h + e));
    lemma_mesh_indices_index(fs, k, 3 * h + e);
    let c = triangle_corner(d, 3 * h + e);
    assert(0 <= c < 4) by {
        match d {
            FaceDir::Below => {},
            FaceDir::Above => {},
            FaceDir::Left => {},
            FaceDir::Right => {},
            FaceDir::Front => {},
            FaceDir::Back => {},
        }
    }
    assert(m.indices@[3 * t + e] == 4 * k + c);
    lemma_mesh_vertices_index(fs, m.x as int, m.y as int, m.z as int, k, c);
    let o = corner_offset(d, c);
    assert(0 <= o.0 <= 1 && 0 <= o.1 <= 1 && 0 <= o.2 <= 1);
}

/// Triangle `t` of a chunk's mesh is wound outward.
proof fn lemma_triangle_wound_outward(m: ChunkMesh, g: Seq<u8>, t: int, k: int)
    requires
        g.len() == CHUNK_VOLUME,
        m.meshes(m.x, m.y, m.z, g),
        0 <= t < 2 * chunk_faces(g).len(),
        0 <= k < 3,
    ensures
        wound_outward(m, t, k),
{
    let fk = t / 2;
    let h = t % 2;
    assert(t == 2 * fk + h);
    let f = chunk_faces(g)[fk];
    let d = f.dir;
    lemma_chunk_faces_in_grid(g, fk);
    lemma_face_table(d, h);
    lemma_triangle_corner(m, g, fk, h, 0);
    lemma_triangle_corner(m, g, fk, h, 1);
    lemma_triangle_corner(m, g, fk, h, 2);
    let first = m.vertices@[m.indices@[3 * t] as int];
    assert(voxel_center2(first, m.x as int, m.y as int, m.z as int)
        == (2 * f.x + 1, 2 * f.y + 1, 2 * f.z + 1));
    let (a, b, c) = (triangle_point(m, t, 0), triangle_point(m, t, 1), triangle_point(m, t, 2));
    assert(minus(b, a) == minus(table_corner(d, h, 1), table_corner(d, h, 0)));
    assert(minus(c, a) == minus(table_corner(d, h, 2), table_corner(d, h, 0)));
    let pk = triangle_point(m, t, k);
    assert(minus((2 * pk.0, 2 * pk.1, 2 * pk.2), voxel_center2(first, m.x as int, m.y as int, m.z as int))
        == from_center(table_corner(d, h, k)));
}

/// Winding: in a chunk's mesh the indices come in triangles, every index
/// names a vertex, and every triangle is wound outward: its three corners
/// belong to one face of one voxel, its normal `(b - a) x (c - a)` is that
/// face's outward unit normal, and it points away from the voxel's center.
pub proof fn lemma_outward_winding(m: ChunkMesh, g: Seq<u8>)
    requires
        g.len() == CHUNK_VOLUME,
        m.meshes(m.x, m.y, m.z, g),
    ensures
        m.indices@.len() % 3 == 0,
        indices_in_range(m),
        forall|t: int, k: int|
            0 <= t < m.indices@.len() / 3 && 0 <= k < 3 ==> #[trigger] wound_outward(m, t, k),
{
    let fs = chunk_faces(g);
    lemma_mesh_lengths(fs, m.x as int, m.y as int, m.z as int);
    lemma_faces_upto_len(g, CHUNK_VOLUME as nat);
    assert(m.indices@.len() / 3 == 2 * fs.len());
    assert forall|i: int| 0 <= i < m.indices@.len() implies m.indices@[i] < m.vertices@.len() by {
        let k = i / 6;
        let j = i % 6;
        assert(i == 6 * k + j);
        lemma_mesh_indices_index(fs, k, j);
        assert(0 <= triangle_corner(fs[k].dir, j) < 4) by {
            match fs[k].dir {
                FaceDir::Below => {},
                FaceDir::Above => {},
                FaceDir::Left => {},
                FaceDir::Right => {},
                FaceDir::Front => {},
                FaceDir::Back => {},
            }
        }
    }
    assert forall|t: int, k: int|
        0 <= t < m.indices@.len() / 3 && 0 <= k < 3 implies #[trigger] wound_outward(m, t, k) by {
        lemma_triangle_wound_outward(m, g, t, k);
    }
}

} // verus!
