use vstd::prelude::*;

verus! {

/// The building cursor: the world position that edits apply to.
pub struct Builder {
    x: i32,
    y: i32,
    z: i32,
}

impl Builder {
    /// The cursor's world position.
    pub closed spec fn pos(&self) -> (int, int, int) {
        (self.x as int, self.y as int, self.z as int)
    }

    /// A cursor at `(x, y, z)`.
    pub fn new(x: i32, y: i32, z: i32) -> (r: Builder)
        ensures
            r.pos() == (x as int, y as int, z as int),
    {
        Builder { x, y, z }
    }

    /// Moves the cursor by `direction`.
    pub fn chpos(&mut self, direction: [i32; 3])
        requires
            i32::MIN <= old(self).pos().0 + direction[0] <= i32::MAX,
            i32::MIN <= old(self).pos().1 + direction[1] <= i32::MAX,
            i32::MIN <= old(self).pos().2 + direction[2] <= i32::MAX,
        ensures
            final(self).pos() == (
                old(self).pos().0 + direction[0],
                old(self).pos().1 + direction[1],
                old(self).pos().2 + direction[2],
            ),
    {
        self.x = self.x + direction[0];
        self.y = self.y + direction[1];
        self.z = self.z + direction[2];
    }

    /// The cursor's world position.
    pub fn get_position(&self) -> (r: [i32; 3])
        ensures
            (r[0] as int, r[1] as int, r[2] as int) == self.pos(),
    {
        [self.x, self.y, self.z]
    }
}

/// Moves the cursor one block per arrow key pressed, in the order left
/// (-z), up (+x), right (+z), down (-x).
pub fn builder_movement(builder: &mut Builder, left: bool, up: bool, right: bool, down: bool)
    requires
        left ==> old(builder).pos().2 > i32::MIN,
        up ==> old(builder).pos().0 < i32::MAX,
        right ==> old(builder).pos().2 - (if left { 1int } else { 0int }) < i32::MAX,
        down ==> old(builder).pos().0 + (if up { 1int } else { 0int }) > i32::MIN,
    ensures
        final(builder).pos() == (
            old(builder).pos().0 + (if up { 1int } else { 0int }) - (if down { 1int } else { 0int }),
            old(builder).pos().1,
            old(builder).pos().2 + (if right { 1int } else { 0int }) - (if left { 1int } else { 0int }),
        ),
{
    let speed: i32 = 1;
    if left {
        builder.chpos([0, 0, -speed]);
    }
    if up {
        builder.chpos([speed, 0, 0]);
    }
    if right {
        builder.chpos([0, 0, speed]);
    }
    if down {
        builder.chpos([-speed, 0, 0]);
    }
}

} // verus!
