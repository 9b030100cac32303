//! A cell's position on the unbounded integer lattice.

use vstd::prelude::*;

verus! {

/// An immutable 2D integer point identifying one cell of the lattice.
/// Equality is structural: two coordinates are the same cell exactly
/// when both components agree.
#[derive(Debug, Clone, Copy, PartialEq, Eq, Hash, Structural)]
pub struct CellCoord {
    pub x: i32,
    pub y: i32,
}

impl View for CellCoord {
    type V = (int, int);

    open spec fn view(&self) -> (int, int) {
        (self.x as int, self.y as int)
    }
}

/// Whether a mathematical point lies on the machine lattice, that is,
/// both components are values of a 32-bit signed integer.
pub open spec fn in_lattice(p: (int, int)) -> bool {
    &&& i32::MIN <= p.0 <= i32::MAX
    &&& i32::MIN <= p.1 <= i32::MAX
}

/// Whether two distinct points are 8-connected Moore neighbors.
pub open spec fn adjacent(p: (int, int), q: (int, int)) -> bool {
    &&& p != q
    &&& -1 <= p.0 - q.0 <= 1
    &&& -1 <= p.1 - q.1 <= 1
}

impl CellCoord {
    pub fn new(x: i32, y: i32) -> (c: Self)
        ensures
            c@ == (x as int, y as int),
    {
        Self { x, y }
    }

    pub fn from_tuple(tuple: (i32, i32)) -> (c: Self)
        ensures
            c@ == (tuple.0 as int, tuple.1 as int),
    {
        Self { x: tuple.0, y: tuple.1 }
    }

    pub fn to_tuple(&self) -> (t: (i32, i32))
        ensures
            t.0 == self.x,
            t.1 == self.y,
    {
        (self.x, self.y)
    }
}

} // verus!
