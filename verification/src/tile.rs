use vstd::prelude::*;

verus! {

/// The terrain of a single map cell.
#[derive(PartialEq, Eq, Structural, Copy, Clone, Debug)]
pub enum TileType {
    Floor,
    Wall,
}

/// A cardinal direction on the grid.
///
/// `North` increases the y-coordinate: the origin is the bottom-left corner.
#[derive(PartialEq, Eq, Structural, Copy, Clone, Debug)]
pub enum Direction {
    North,
    East,
    South,
    West,
}

impl Direction {
    /// The change of the x-coordinate of a step in this direction.
    pub open spec fn dx(self) -> int {
        match self {
            Direction::North => 0,
            Direction::East => 1,
            Direction::South => 0,
            Direction::West => -1,
        }
    }

    /// The change of the y-coordinate of a step in this direction.
    pub open spec fn dy(self) -> int {
        match self {
            Direction::North => 1,
            Direction::East => 0,
            Direction::South => -1,
            Direction::West => 0,
        }
    }
}

impl TileType {
    /// A tile can be walked on exactly when it is `Floor`.
    pub fn is_walkable(self) -> (r: bool)
        ensures
            r == (self is Floor),
    {
        match self {
            Self::Floor => true,
            Self::Wall => false,
        }
    }
}

} // verus!
