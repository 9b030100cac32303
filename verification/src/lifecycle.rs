//! The lifecycle pass: a read-only diagnostic traversal of a configuration.
//!
//! It runs immediately before the transition each generation, purely for
//! measurement: it reports the population and the bounding box of the live
//! cells, and never alters the configuration or the transition's output.
//! It may be skipped or rate-limited without changing simulation behaviour.

use vstd::prelude::*;

use crate::cell_configuration::{coord_seq, CellConfiguration};

verus! {

/// The smallest axis-aligned rectangle holding every live cell.
#[derive(Debug, Clone, Copy, PartialEq, Eq, Structural)]
pub struct BoundingBox {
    pub min_x: i32,
    pub min_y: i32,
    pub max_x: i32,
    pub max_y: i32,
}

/// What one lifecycle pass reports of a configuration.
#[derive(Debug, Clone, Copy)]
pub struct LifecycleReport {
    pub population: usize,
    pub bounds: Option<BoundingBox>,
}

/// Every live cell of `s` lies inside `b`.
pub open spec fn encloses(b: BoundingBox, s: Set<(int, int)>) -> bool {
    forall|p: (int, int)| #[trigger]
        s.contains(p) ==> b.min_x <= p.0 <= b.max_x && b.min_y <= p.1 <= b.max_y
}

/// Each edge of `b` is attained by some live cell of `s`.
pub open spec fn tight(b: BoundingBox, s: Set<(int, int)>) -> bool {
    &&& exists|p: (int, int)| #[trigger] s.contains(p) && p.0 == b.min_x
    &&& exists|p: (int, int)| #[trigger] s.contains(p) && p.0 == b.max_x
    &&& exists|p: (int, int)| #[trigger] s.contains(p) && p.1 == b.min_y
    &&& exists|p: (int, int)| #[trigger] s.contains(p) && p.1 == b.max_y
}

/// Traverse the configuration and report its population and, when it is not
/// empty, the exact bounding box of its live cells.
pub fn lifecycle_pass(g: &CellConfiguration) -> (report: LifecycleReport)
    ensures
        report.population == g@.len(),
        match report.bounds {
            Some(b) => encloses(b, g@) && tight(b, g@),
            None => g@.len() == 0,
        },
{
    let cells = g.iter();
    let n = cells.len();
    if n == 0 {
        return LifecycleReport { population: 0, bounds: None };
    }
    let first = cells[0];
    let mut min_x = first.x;
    let mut max_x = first.x;
    let mut min_y = first.y;
    let mut max_y = first.y;
    let mut i: usize = 1;
    proof {
        assert(coord_seq(cells@)[0] == first@);
    }
    while i < n
        invariant
            n == cells@.len(),
            1 <= i <= n,
            forall|j: int| 0 <= j < i ==> min_x <= (#[trigger] coord_seq(cells@)[j]).0 <= max_x,
            forall|j: int| 0 <= j < i ==> min_y <= (#[trigger] coord_seq(cells@)[j]).1 <= max_y,
            exists|j: int| 0 <= j < i && (#[trigger] coord_seq(cells@)[j]).0 == min_x,
            exists|j: int| 0 <= j < i && (#[trigger] coord_seq(cells@)[j]).0 == max_x,
            exists|j: int| 0 <= j < i && (#[trigger] coord_seq(cells@)[j]).1 == min_y,
            exists|j: int| 0 <= j < i && (#[trigger] coord_seq(cells@)[j]).1 == max_y,
        decreases n - i,
    {
        let c = cells[i];
        let ghost entry_min_x = min_x;
        let ghost entry_max_x = max_x;
        let ghost entry_min_y = min_y;
        let ghost entry_max_y = max_y;
        proof {
            assert(coord_seq(cells@)[i as int] == c@);
        }
        if c.x < min_x {
            min_x = c.x;
        }
        if c.x > max_x {
            max_x = c.x;
        }
        if c.y < min_y {
            min_y = c.y;
        }
        if c.y > max_y {
            max_y = c.y;
        }
        proof {
            let cs = coord_seq(cells@);
            assert(exists|j: int| 0 <= j < i + 1 && (#[trigger] cs[j]).0 == min_x) by {
                if min_x == c.x {
                    assert((cs[i as int]).0 == min_x);
                } else {
                    assert(min_x == entry_min_x);
                    let j = choose|j: int| 0 <= j < i && (#[trigger] cs[j]).0 == entry_min_x;
                    assert((cs[j]).0 == min_x);
                }
            }
            assert(exists|j: int| 0 <= j < i + 1 && (#[trigger] cs[j]).0 == max_x) by {
                if max_x == c.x {
                    assert((cs[i as int]).0 == max_x);
                } else {
                    assert(max_x == entry_max_x);
                    let j = choose|j: int| 0 <= j < i && (#[trigger] cs[j]).0 == entry_max_x;
                    assert((cs[j]).0 == max_x);
                }
            }
            assert(exists|j: int| 0 <= j < i + 1 && (#[trigger] cs[j]).1 == min_y) by {
                if min_y == c.y {
                    assert((cs[i as int]).1 == min_y);
                } else {
                    assert(min_y == entry_min_y);
                    let j = choose|j: int| 0 <= j < i && (#[trigger] cs[j]).1 == entry_min_y;
                    assert((cs[j]).1 == min_y);
                }
            }
            assert(exists|j: int| 0 <= j < i + 1 && (#[trigger] cs[j]).1 == max_y) by {
                if max_y == c.y {
                    assert((cs[i as int]).1 == max_y);
                } else {
                    assert(max_y == entry_max_y);
                    let j = choose|j: int| 0 <= j < i && (#[trigger] cs[j]).1 == entry_max_y;
                    assert((cs[j]).1 == max_y);
                }
            }
        }
        i += 1;
    }
    let b = BoundingBox { min_x, min_y, max_x, max_y };
    proof {
        let cs = coord_seq(cells@);
        assert forall|p: (int, int)| #[trigger] g@.contains(p) implies b.min_x <= p.0 <= b.max_x
            && b.min_y <= p.1 <= b.max_y by {
            assert(cs.contains(p));
            let j = choose|j: int| 0 <= j < cs.len() && cs[j] == p;
        }
        let j0 = choose|j: int| 0 <= j < n && cs[j].0 == min_x;
        assert(g@.contains(cs[j0]));
        let j1 = choose|j: int| 0 <= j < n && cs[j].0 == max_x;
        assert(g@.contains(cs[j1]));
        let j2 = choose|j: int| 0 <= j < n && cs[j].1 == min_y;
        assert(g@.contains(cs[j2]));
        let j3 = choose|j: int| 0 <= j < n && cs[j].1 == max_y;
        assert(g@.contains(cs[j3]));
    }
    LifecycleReport { population: n, bounds: Some(b) }
}

} // verus!
