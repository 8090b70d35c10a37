//! Compass facings and the geometry of single-cell steps.

use vstd::prelude::*;

verus! {

/// A compass facing with the fixed cyclic order Up -> Right -> Down -> Left -> Up.
///
/// A `Rotation` serves both as the facing of a Robot in the world and as the
/// travel direction of a Brain's Reader.
#[derive(Clone, Copy, Debug, PartialEq, Eq, Structural)]
pub enum Rotation {
    Up,
    Right,
    Down,
    Left,
}

impl Rotation {
    /// The next facing clockwise along the cyclic order.
    pub open spec fn spec_clockwise(self) -> Rotation {
        match self {
            Rotation::Up => Rotation::Right,
            Rotation::Right => Rotation::Down,
            Rotation::Down => Rotation::Left,
            Rotation::Left => Rotation::Up,
        }
    }

    /// The next facing counter-clockwise along the cyclic order.
    pub open spec fn spec_counter_clockwise(self) -> Rotation {
        match self {
            Rotation::Up => Rotation::Left,
            Rotation::Right => Rotation::Up,
            Rotation::Down => Rotation::Right,
            Rotation::Left => Rotation::Down,
        }
    }

    /// The facing pointing the opposite way.
    pub open spec fn spec_opposite(self) -> Rotation {
        match self {
            Rotation::Up => Rotation::Down,
            Rotation::Right => Rotation::Left,
            Rotation::Down => Rotation::Up,
            Rotation::Left => Rotation::Right,
        }
    }

    /// Rotate 90 degrees clockwise (a `RotateRight` effect).
    pub fn clockwise(self) -> (r: Rotation)
        ensures
            r == self.spec_clockwise(),
    {
        match self {
            Rotation::Up => Rotation::Right,
            Rotation::Right => Rotation::Down,
            Rotation::Down => Rotation::Left,
            Rotation::Left => Rotation::Up,
        }
    }

    /// Rotate 90 degrees counter-clockwise (a `RotateLeft` effect).
    pub fn counter_clockwise(self) -> (r: Rotation)
        ensures
            r == self.spec_counter_clockwise(),
    {
        match self {
            Rotation::Up => Rotation::Left,
            Rotation::Right => Rotation::Up,
            Rotation::Down => Rotation::Right,
            Rotation::Left => Rotation::Down,
        }
    }

    /// The opposite facing (used by the `Back` effect).
    pub fn opposite(self) -> (r: Rotation)
        ensures
            r == self.spec_opposite(),
    {
        match self {
            Rotation::Up => Rotation::Down,
            Rotation::Right => Rotation::Left,
            Rotation::Down => Rotation::Up,
            Rotation::Left => Rotation::Right,
        }
    }
}

/// The grid coordinate one step from `pos` in facing `rot`.
///
/// The y axis grows upward: `Up` increases y, `Down` decreases it.
pub open spec fn step_from(pos: (int, int), rot: Rotation) -> (int, int) {
    match rot {
        Rotation::Up => (pos.0, pos.1 + 1),
        Rotation::Right => (pos.0 + 1, pos.1),
        Rotation::Down => (pos.0, pos.1 - 1),
        Rotation::Left => (pos.0 - 1, pos.1),
    }
}

/// Whether both coordinates of a mathematical grid position fit in `i32`.
pub open spec fn fits_i32(pos: (int, int)) -> bool {
    &&& i32::MIN <= pos.0 <= i32::MAX
    &&& i32::MIN <= pos.1 <= i32::MAX
}

/// Compute the cell one step from `pos` in facing `rot`, or `None` when the
/// target coordinate does not fit in `i32` (such a coordinate lies outside
/// every grid this crate can represent).
pub fn step_target(pos: (i32, i32), rot: Rotation) -> (r: Option<(i32, i32)>)
    ensures
        match r {
            Some(p) => fits_i32(step_from((pos.0 as int, pos.1 as int), rot)) && (p.0 as int, p.1
                as int) == step_from((pos.0 as int, pos.1 as int), rot),
            None => !fits_i32(step_from((pos.0 as int, pos.1 as int), rot)),
        },
{
    match rot {
        Rotation::Up => {
            if pos.1 == i32::MAX {
                None
            } else {
                Some((pos.0, pos.1 + 1))
            }
        },
        Rotation::Right => {
            if pos.0 == i32::MAX {
                None
            } else {
                Some((pos.0 + 1, pos.1))
            }
        },
        Rotation::Down => {
            if pos.1 == i32::MIN {
                None
            } else {
                Some((pos.0, pos.1 - 1))
            }
        },
        Rotation::Left => {
            if pos.0 == i32::MIN {
                None
            } else {
                Some((pos.0 - 1, pos.1))
            }
        },
    }
}

} // verus!
