use voxel::builder::{builder_movement, Builder};

#[test]
fn cursor_moves_by_direction() {
    let mut b = Builder::new(0, 60, 0);
    assert_eq!(b.get_position(), [0, 60, 0]);
    b.chpos([3, -1, -2]);
    assert_eq!(b.get_position(), [3, 59, -2]);
}

#[test]
fn arrow_keys_move_the_cursor() {
    let mut b = Builder::new(0, 0, 0);
    builder_movement(&mut b, true, false, false, false);
    assert_eq!(b.get_position(), [0, 0, -1]);
    builder_movement(&mut b, false, true, false, false);
    assert_eq!(b.get_position(), [1, 0, -1]);
    builder_movement(&mut b, false, false, true, true);
    assert_eq!(b.get_position(), [0, 0, 0]);
    builder_movement(&mut b, true, true, true, true);
    assert_eq!(b.get_position(), [0, 0, 0]);
}
