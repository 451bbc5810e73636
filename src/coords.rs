use vstd::prelude::*;

verus! {

/// Edge length of a chunk, in voxels, along each of the three axes.
pub const CHUNK_SIZE: i32 = 32;

/// The chunk coordinate that owns world position `p` along one axis:
/// floor division, rounding toward negative infinity.
pub open spec fn floor_div(p: int, size: int) -> int
    recommends
        size > 0,
{
    p / size
}

/// The offset of world position `p` inside its owning chunk along one axis.
pub open spec fn floor_mod(p: int, size: int) -> int
    recommends
        size > 0,
{
    p % size
}

/// Chunk coordinate of world position `p` along one axis, for chunks of
/// `size` voxels: `floor(p / size)`.
pub fn chunk_coord(p: i32, size: i32) -> (r: i32)
    requires
        size > 0,
    ensures
        r == floor_div(p as int, size as int),
{
    if p >= 0 {
        p / size
    } else {
        let n: i32 = -(p + 1);
        let q: i32 = n / size;
        proof {
            lemma_floor_div_negative(p as int, size as int, n as int, q as int);
        }
        -q - 1
    }
}

/// Offset of world position `p` inside its chunk along one axis, in `[0, size)`.
pub fn local_index(p: i32, size: i32) -> (r: i32)
    requires
        size > 0,
    ensures
        r == floor_mod(p as int, size as int),
        0 <= r < size,
        floor_div(p as int, size as int) * size + r == p,
{
    let c: i32 = chunk_coord(p, size);
    proof {
        lemma_chunk_round_trip(p as int, size as int);
        assert(c * size == p - p % size);
    }
    // The chunk origin `c * size` may lie below `i32::MIN`; the offset never does.
    (p as i64 - c as i64 * size as i64) as i32
}

/// Chunk coordinate of a world position on all three axes, for chunks of
/// `CHUNK_SIZE` voxels.
pub fn get_chunk_coordinates_from_position(pos: [i32; 3]) -> (r: [i32; 3])
    ensures
        r[0] == floor_div(pos[0] as int, CHUNK_SIZE as int),
        r[1] == floor_div(pos[1] as int, CHUNK_SIZE as int),
        r[2] == floor_div(pos[2] as int, CHUNK_SIZE as int),
{
    [chunk_coord(pos[0], CHUNK_SIZE), chunk_coord(pos[1], CHUNK_SIZE), chunk_coord(pos[2], CHUNK_SIZE)]
}

/// For `n == -(p + 1)` and `q == n / size`, the floor of `p / size` is `-q - 1`.
proof fn lemma_floor_div_negative(p: int, size: int, n: int, q: int)
    requires
        size > 0,
        p < 0,
        n == -(p + 1),
        q == n / size,
    ensures
        p / size == -q - 1,
{
    vstd::arithmetic::div_mod::lemma_fundamental_div_mod(n, size);
    vstd::arithmetic::div_mod::lemma_fundamental_div_mod(p, size);
    let r = n % size;
    assert(0 <= r < size);
    assert(p == (-q - 1) * size + (size - 1 - r)) by (nonlinear_arith)
        requires
            n == q * size + r,
            n == -(p + 1),
    ;
    vstd::arithmetic::div_mod::lemma_fundamental_div_mod_converse(p, size, -q - 1, size - 1 - r);
}

/// Every world position is its chunk's origin plus an in-range local offset.
pub proof fn lemma_chunk_round_trip(p: int, size: int)
    requires
        size > 0,
    ensures
        floor_div(p, size) * size + floor_mod(p, size) == p,
        0 <= floor_mod(p, size) < size,
{
    vstd::arithmetic::div_mod::lemma_fundamental_div_mod(p, size);
    assert(size * (p / size) == (p / size) * size) by (nonlinear_arith);
}

} // verus!
