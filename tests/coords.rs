use voxel::coords::{chunk_coord, get_chunk_coordinates_from_position, local_index, CHUNK_SIZE};

#[test]
fn chunk_coord_rounds_toward_negative_infinity() {
    assert_eq!(chunk_coord(-1, 32), -1);
    assert_eq!(chunk_coord(-32, 32), -1);
    assert_eq!(chunk_coord(-33, 32), -2);
    assert_eq!(chunk_coord(0, 32), 0);
    assert_eq!(chunk_coord(31, 32), 0);
    assert_eq!(chunk_coord(32, 32), 1);
    assert_eq!(chunk_coord(-1, 16), -1);
    assert_eq!(chunk_coord(-17, 16), -2);
}

#[test]
fn chunk_coord_matches_floor_division() {
    for size in [1, 2, 3, 7, 16, 32] {
        for p in -200..200 {
            assert_eq!(chunk_coord(p, size), (p as f64 / size as f64).floor() as i32);
        }
    }
}

#[test]
fn local_index_round_trips() {
    for size in [1, 3, 16, 32] {
        for p in -300..300 {
            let c = chunk_coord(p, size);
            let l = local_index(p, size);
            assert!(0 <= l && l < size);
            assert_eq!(c * size + l, p);
        }
    }
}

#[test]
fn local_index_at_the_extremes() {
    assert_eq!(chunk_coord(i32::MIN, 3), -715827883);
    assert_eq!(local_index(i32::MIN, 3), 1);
    assert_eq!(chunk_coord(i32::MAX, 32), 67108863);
    assert_eq!(local_index(i32::MAX, 32), 31);
    assert_eq!(local_index(i32::MIN, 32), 0);
    assert_eq!(chunk_coord(i32::MIN, 32), -67108864);
}

#[test]
fn chunk_coordinates_of_a_position() {
    assert_eq!(CHUNK_SIZE, 32);
    assert_eq!(get_chunk_coordinates_from_position([5, 10, 5]), [0, 0, 0]);
    assert_eq!(get_chunk_coordinates_from_position([-1, -32, -33]), [-1, -1, -2]);
    assert_eq!(get_chunk_coordinates_from_position([32, 64, 95]), [1, 2, 2]);
}
