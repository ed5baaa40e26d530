//! Helpers for laying out blocks by hand.

use vstd::prelude::*;
use crate::math::{IVec3, Quat, HALF_SQRT_2, ZERO};

verus! {

/// The way something on a block points.
#[derive(Clone, Copy, Debug, PartialEq, Eq, Structural)]
pub enum Facing {
    Up,
    Down,
    Left,
    Right,
    Forwards,
    Backwards,
}

impl Facing {
    /// The rotation that turns a block to face this way. Only `Right` has
    /// one: a quarter turn about the z axis.
    pub fn into_quat(self) -> (rotation: Quat)
        requires
            self is Right,
        ensures
            rotation == Quat::quarter_turn_z(),
    {
        Quat { x: ZERO, y: ZERO, z: HALF_SQRT_2, w: HALF_SQRT_2 }
    }
}

/// The place of a block on the grid, counted in blocks from its owner.
pub type RelativePixel = IVec3;

} // verus!
