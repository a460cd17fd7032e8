//! Grid coordinates.

use rand::Rng;
use rand::RngCore;
use vstd::prelude::*;

verus! {

/// A cell of the grid, or an offset between two cells.
#[derive(Clone, Copy, Debug, PartialEq, Eq, Structural, Hash)]
pub struct Position {
    pub x: isize,
    pub y: isize,
}

/// `Rng::gen_range` of `rand` over the range from 0 up to, not including,
/// `bound`: one number of that range drawn from `rng`. The crate refuses an
/// empty range, so `bound` has to be positive.
#[verifier::external_body]
fn below<R: RngCore + ?Sized>(rng: &mut R, bound: isize) -> (drawn: isize)
    requires
        0 < bound,
    ensures
        0 <= drawn < bound,
{
    rng.gen_range(0..bound)
}

impl Position {
    /// The cell at column `x`, row `y`.
    pub fn new(x: isize, y: isize) -> (p: Position)
        ensures
            p == (Position { x, y }),
    {
        Position { x, y }
    }

    /// A cell of the grid with edge `size`: its column is drawn first, then
    /// its row.
    pub fn random_within_size<R: RngCore + ?Sized>(rng: &mut R, size: isize) -> (p: Position)
        requires
            0 < size,
        ensures
            p.within(size as int),
    {
        let x = below(rng, size);
        let y = below(rng, size);
        Position { x, y }
    }

    /// The componentwise sum of `self` and `other`, as a mathematical pair.
    pub open spec fn plus(self, other: Position) -> (int, int) {
        (self.x + other.x, self.y + other.y)
    }

    /// Whether `self` lies on the square grid with edge `size`.
    pub open spec fn within(self, size: int) -> bool {
        0 <= self.x < size && 0 <= self.y < size
    }

    /// Componentwise sum.
    pub fn add(self, other: Position) -> (p: Position)
        requires
            isize::MIN <= self.x + other.x <= isize::MAX,
            isize::MIN <= self.y + other.y <= isize::MAX,
        ensures
            (p.x as int, p.y as int) == self.plus(other),
    {
        Position { x: self.x + other.x, y: self.y + other.y }
    }

    /// Whether `self` lies on the square grid with edge `size`.
    pub fn is_within(&self, size: isize) -> (b: bool)
        ensures
            b == self.within(size as int),
    {
        0 <= self.x && self.x < size && 0 <= self.y && self.y < size
    }
}

} // verus!
