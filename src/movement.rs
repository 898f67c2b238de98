use vstd::prelude::*;

verus! {

/// Distance, in world units, that a held direction moves the controlled
/// entity in one frame once the direction is normalized.
pub const PLAYER_SPEED: u32 = 5;

/// The state of the four movement keys in one frame.
#[derive(Clone, Copy, Debug, PartialEq, Eq, Structural)]
pub struct MovementKeys {
    pub up: bool,
    pub down: bool,
    pub left: bool,
    pub right: bool,
}

/// Contribution of a pair of opposite keys along one axis: +1 for the
/// positive key alone, -1 for the negative key alone, 0 for both or neither.
pub open spec fn axis(negative: bool, positive: bool) -> int {
    (if positive { 1int } else { 0int }) - (if negative { 1int } else { 0int })
}

/// The sum of the unit vectors of the pressed keys.
pub open spec fn key_sum(keys: MovementKeys) -> (int, int) {
    (axis(keys.left, keys.right), axis(keys.down, keys.up))
}

/// A direction of movement on the grid, each component in -1..=1.
#[derive(Clone, Copy, Debug, PartialEq, Eq, Structural)]
pub struct Direction {
    pub x: i8,
    pub y: i8,
}

impl Direction {
    pub open spec fn view(self) -> (int, int) {
        (self.x as int, self.y as int)
    }

    /// Whether both components are non-zero, so that the normalized step
    /// is shorter than the speed along each axis.
    pub fn is_diagonal(&self) -> (r: bool)
        ensures
            r == (self.x != 0 && self.y != 0),
    {
        self.x != 0 && self.y != 0
    }
}

fn axis_step(negative: bool, positive: bool) -> (r: i8)
    ensures
        r as int == axis(negative, positive),
{
    let mut s: i8 = 0;
    if positive {
        s = s + 1;
    }
    if negative {
        s = s - 1;
    }
    s
}

/// The direction in which the keys push, or `None` when they cancel out
/// (no key held, or only opposite keys held), in which case nothing moves.
pub fn movement_direction(keys: MovementKeys) -> (r: Option<Direction>)
    ensures
        r is None <==> key_sum(keys) == (0int, 0int),
        r matches Some(d) ==> d@ == key_sum(keys),
{
    let x = axis_step(keys.left, keys.right);
    let y = axis_step(keys.down, keys.up);
    if x == 0 && y == 0 {
        None
    } else {
        Some(Direction { x, y })
    }
}

/// Every direction that the keys produce has components in -1..=1, and
/// holding both keys of a pair is the same as holding neither.
pub proof fn lemma_direction_bounded(keys: MovementKeys)
    ensures
        -1 <= key_sum(keys).0 <= 1,
        -1 <= key_sum(keys).1 <= 1,
        key_sum(MovementKeys { up: true, down: true, ..keys }).1 == key_sum(
            MovementKeys { up: false, down: false, ..keys },
        ).1,
        key_sum(MovementKeys { left: true, right: true, ..keys }).0 == key_sum(
            MovementKeys { left: false, right: false, ..keys },
        ).0,
{
}

} // verus!
