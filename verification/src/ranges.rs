//! Attack ranges: the grid tiles an operator can reach.

use vstd::prelude::*;

verus! {

/// A grid tile, as (x, y) coordinates.
#[derive(Debug, Clone, Copy, PartialEq, Eq, Structural, Hash)]
pub struct GridPoint {
    pub x: i32,
    pub y: i32,
}

/// The set of grid tiles that an operator can attack.
#[derive(Debug)]
pub struct AttackRange {
    pub points: Vec<GridPoint>,
}

impl AttackRange {
    /// Whether this range reaches a given grid tile.
    pub fn contains(&self, point: GridPoint) -> (r: bool)
        ensures
            r == self.points@.contains(point),
    {
        let n = self.points.len();
        let mut i: usize = 0;
        while i < n
            invariant
                i <= n,
                n == self.points@.len(),
                forall|j: int| 0 <= j < i ==> self.points@[j] != point,
            decreases n - i,
        {
            if self.points[i] == point {
                return true;
            }
            i = i + 1;
        }
        proof {
            assert(!self.points@.contains(point));
        }
        false
    }

    /// Borrows the contained grid tiles, in order.
    pub fn iter(&self) -> (r: &Vec<GridPoint>)
        ensures
            r@ == self.points@,
    {
        &self.points
    }
}

} // verus!
