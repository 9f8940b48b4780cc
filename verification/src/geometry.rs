//! Grid geometry: directions on the four axes and integer grid points.

use vstd::prelude::*;

verus! {

/// One of the four movement directions on the grid.
#[derive(Debug, Copy, Clone, PartialEq, Eq, Structural)]
pub enum Dir {
    Up,
    Down,
    Left,
    Right,
}

impl Dir {
    /// Two directions are opposite iff they lie on the same axis and point
    /// opposite ways.
    pub open spec fn opposite_spec(self, other: Dir) -> bool {
        match (self, other) {
            (Dir::Up, Dir::Down) => true,
            (Dir::Down, Dir::Up) => true,
            (Dir::Left, Dir::Right) => true,
            (Dir::Right, Dir::Left) => true,
            _ => false,
        }
    }

    /// The direction that points the opposite way.
    pub open spec fn opposite_of_spec(self) -> Dir {
        match self {
            Dir::Up => Dir::Down,
            Dir::Down => Dir::Up,
            Dir::Left => Dir::Right,
            Dir::Right => Dir::Left,
        }
    }

    pub fn is_opposite(&self, other: Dir) -> (r: bool)
        ensures
            r == self.opposite_spec(other),
    {
        match (self, other) {
            (Dir::Up, Dir::Down) | (Dir::Down, Dir::Up) => true,
            (Dir::Left, Dir::Right) | (Dir::Right, Dir::Left) => true,
            _ => false,
        }
    }

    pub fn opposite_of(self) -> (r: Dir)
        ensures
            r == self.opposite_of_spec(),
    {
        match self {
            Dir::Up => Dir::Down,
            Dir::Down => Dir::Up,
            Dir::Left => Dir::Right,
            Dir::Right => Dir::Left,
        }
    }
}

/// Every direction is opposite to its reverse, and no direction is opposite
/// to itself.
pub proof fn lemma_opposite(d: Dir)
    ensures
        d.opposite_spec(d.opposite_of_spec()),
        !d.opposite_spec(d),
{
}

/// A grid cell address: (row, column), origin at the top-left.
#[derive(Debug, Copy, Clone, PartialEq, Eq, Structural)]
pub struct TermPoint {
    pub row: usize,
    pub col: usize,
}

impl TermPoint {
    pub fn new(row: usize, col: usize) -> (p: TermPoint)
        ensures
            p.row == row,
            p.col == col,
    {
        TermPoint { row, col }
    }

    /// Moving one cell in direction `d` stays within the unsigned
    /// coordinate range.
    pub open spec fn can_advance(self, d: Dir) -> bool {
        match d {
            Dir::Up => self.row >= 1,
            Dir::Down => self.row < usize::MAX,
            Dir::Left => self.col >= 1,
            Dir::Right => self.col < usize::MAX,
        }
    }

    /// The adjacent point one cell away in direction `d`.
    pub open spec fn advance_spec(self, d: Dir) -> TermPoint {
        match d {
            Dir::Up => TermPoint { row: (self.row - 1) as usize, col: self.col },
            Dir::Down => TermPoint { row: (self.row + 1) as usize, col: self.col },
            Dir::Left => TermPoint { row: self.row, col: (self.col - 1) as usize },
            Dir::Right => TermPoint { row: self.row, col: (self.col + 1) as usize },
        }
    }

    pub fn advance(self, d: Dir) -> (p: TermPoint)
        requires
            self.can_advance(d),
        ensures
            p == self.advance_spec(d),
    {
        match d {
            Dir::Up => TermPoint { row: self.row - 1, col: self.col },
            Dir::Down => TermPoint { row: self.row + 1, col: self.col },
            Dir::Left => TermPoint { row: self.row, col: self.col - 1 },
            Dir::Right => TermPoint { row: self.row, col: self.col + 1 },
        }
    }
}

/// Is `p` an interior cell of a grid of `height` rows and `width` columns,
/// i.e. off the one-cell border?
pub open spec fn in_interior(p: TermPoint, height: u16, width: u16) -> bool {
    &&& 1 <= p.row
    &&& p.row + 1 < height
    &&& 1 <= p.col
    &&& p.col + 1 < width
}

} // verus!
