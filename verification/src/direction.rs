use vstd::prelude::*;

verus! {

/// One of the six axis-aligned orientations a voxel face can have.
///
/// Pictured on a map: `North` points toward positive z, `South` toward
/// negative z, `East` toward positive x, `West` toward negative x, `Up`
/// toward positive y (the viewer of the map) and `Down` toward negative y.
#[derive(Copy, Clone, Debug, PartialEq, Eq, Structural)]
pub enum AbsolouteDirection {
    North,
    East,
    South,
    West,
    Up,
    Down,
}

impl AbsolouteDirection {
    /// The numeric tag of this direction, `0` through `5`.
    pub open spec fn tag(self) -> u32 {
        match self {
            AbsolouteDirection::North => 0,
            AbsolouteDirection::East => 1,
            AbsolouteDirection::South => 2,
            AbsolouteDirection::West => 3,
            AbsolouteDirection::Up => 4,
            AbsolouteDirection::Down => 5,
        }
    }

    /// The x component of the unit step from a block to the neighbor this
    /// direction faces; it is also the x component of the face's outward
    /// normal.
    pub open spec fn offset_x(self) -> int {
        match self {
            AbsolouteDirection::East => 1,
            AbsolouteDirection::West => -1,
            _ => 0,
        }
    }

    /// The y component of the unit step toward the faced neighbor.
    pub open spec fn offset_y(self) -> int {
        match self {
            AbsolouteDirection::Up => 1,
            AbsolouteDirection::Down => -1,
            _ => 0,
        }
    }

    /// The z component of the unit step toward the faced neighbor.
    pub open spec fn offset_z(self) -> int {
        match self {
            AbsolouteDirection::North => 1,
            AbsolouteDirection::South => -1,
            _ => 0,
        }
    }

    /// Converts the direction into its numeric tag.
    pub fn index(self) -> (r: u32)
        ensures
            r == self.tag(),
    {
        match self {
            AbsolouteDirection::North => 0,
            AbsolouteDirection::East => 1,
            AbsolouteDirection::South => 2,
            AbsolouteDirection::West => 3,
            AbsolouteDirection::Up => 4,
            AbsolouteDirection::Down => 5,
        }
    }
}

} // verus!
