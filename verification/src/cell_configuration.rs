//! The sparse grid: a finite set of live coordinates on the unbounded lattice.

use vstd::prelude::*;

use crate::cell_coord::{in_lattice, CellCoord};

verus! {

broadcast use vstd::seq_lib::lemma_seq_contains_after_push;

/// The mathematical coordinates of a sequence of cells.
pub open spec fn coord_seq(cells: Seq<CellCoord>) -> Seq<(int, int)> {
    cells.map_values(|c: CellCoord| c@)
}

/// A configuration of the lattice: every coordinate held is a live cell,
/// every other cell is dead.  Memory scales with the population, never with
/// the extent of the lattice.  Viewed as the set of live coordinates.
pub struct CellConfiguration {
    cells: Vec<CellCoord>,
}

impl View for CellConfiguration {
    type V = Set<(int, int)>;

    closed spec fn view(&self) -> Set<(int, int)> {
        coord_seq(self.cells@).to_set()
    }
}

impl CellConfiguration {
    /// Set semantics: no coordinate is ever held twice.
    #[verifier::type_invariant]
    spec fn distinct(self) -> bool {
        coord_seq(self.cells@).no_duplicates()
    }

    /// The empty configuration: every cell dead.
    pub fn new() -> (config: Self)
        ensures
            config@ == Set::<(int, int)>::empty(),
    {
        let config = CellConfiguration { cells: Vec::new() };
        proof {
            assert(config@ =~= Set::<(int, int)>::empty());
        }
        config
    }

    /// Whether the cell at `coord` is live.
    pub fn get(&self, coord: CellCoord) -> (live: bool)
        ensures
            live == self@.contains(coord@),
    {
        let n = self.cells.len();
        let mut i: usize = 0;
        while i < n
            invariant
                n == self.cells@.len(),
                i <= n,
                forall|j: int| 0 <= j < i ==> coord_seq(self.cells@)[j] != coord@,
            decreases n - i,
        {
            let c = self.cells[i];
            if c.x == coord.x && c.y == coord.y {
                proof {
                    assert(coord_seq(self.cells@)[i as int] == coord@);
                    assert(coord_seq(self.cells@).contains(coord@));
                }
                return true;
            }
            i += 1;
        }
        proof {
            assert(!coord_seq(self.cells@).contains(coord@));
        }
        false
    }

    /// Make the cell at `coord` live.  Spawning an already-live cell is a no-op.
    pub fn spawn(&mut self, coord: CellCoord)
        ensures
            final(self)@ == old(self)@.insert(coord@),
    {
        proof {
            use_type_invariant(&*self);
        }
        if !self.get(coord) {
            let mut cells: Vec<CellCoord> = Vec::new();
            std::mem::swap(&mut cells, &mut self.cells);
            proof {
                assert(!coord_seq(cells@).contains(coord@));
                assert(coord_seq(cells@.push(coord)) =~= coord_seq(cells@).push(coord@));
            }
            cells.push(coord);
            proof {
                assert(coord_seq(cells@).no_duplicates());
            }
            self.cells = cells;
            proof {
                assert(self@ =~= old(self)@.insert(coord@));
            }
        } else {
            proof {
                assert(self@ =~= old(self)@.insert(coord@));
            }
        }
    }

    /// Make the cell at `coord` dead.  Despawning an absent cell is a no-op.
    pub fn despawn(&mut self, coord: CellCoord)
        ensures
            final(self)@ == old(self)@.remove(coord@),
    {
        proof {
            use_type_invariant(&*self);
        }
        let n = self.cells.len();
        let mut kept: Vec<CellCoord> = Vec::new();
        let mut i: usize = 0;
        while i < n
            invariant
                self.cells@ == old(self).cells@,
                coord_seq(self.cells@).no_duplicates(),
                n == self.cells@.len(),
                i <= n,
                coord_seq(kept@).no_duplicates(),
                forall|p: (int, int)| #[trigger] coord_seq(kept@).contains(p) <==> (p
                    != coord@ && exists|j: int|
                    0 <= j < i && coord_seq(self.cells@)[j] == p),
            decreases n - i,
        {
            let c = self.cells[i];
            let ghost kept_before = kept@;
            if !(c.x == coord.x && c.y == coord.y) {
                proof {
                    assert(coord_seq(self.cells@)[i as int] == c@);
                    if coord_seq(kept@).contains(c@) {
                        let j = choose|j: int|
                            0 <= j < i && coord_seq(self.cells@)[j] == c@;
                        assert(false);
                    }
                    assert(coord_seq(kept@.push(c)) =~= coord_seq(kept@).push(c@));
                }
                kept.push(c);
                proof {
                    assert(coord_seq(kept@) == coord_seq(kept_before).push(c@));
                    assert forall|p: (int, int)| #[trigger] coord_seq(kept@).contains(p)
                        implies (p != coord@ && exists|j: int|
                        0 <= j < i + 1 && coord_seq(self.cells@)[j] == p) by {
                        if p == c@ {
                            assert(coord_seq(self.cells@)[i as int] == p);
                        }
                    }
                    assert forall|p: (int, int)| (p != coord@ && exists|j: int|
                        0 <= j < i + 1 && coord_seq(self.cells@)[j] == p)
                        implies #[trigger] coord_seq(kept@).contains(p) by {
                        let j = choose|j: int|
                            0 <= j < i + 1 && coord_seq(self.cells@)[j] == p;
                        if j < i {
                            assert(coord_seq(kept_before).contains(p));
                        } else {
                            assert(p == c@);
                        }
                    }
                }
            } else {
                proof {
                    assert(coord_seq(self.cells@)[i as int] == coord@);
                    assert forall|p: (int, int)| (p != coord@ && exists|j: int|
                        0 <= j < i + 1 && coord_seq(self.cells@)[j] == p)
                        implies #[trigger] coord_seq(kept@).contains(p) by {
                        let j = choose|j: int|
                            0 <= j < i + 1 && coord_seq(self.cells@)[j] == p;
                        assert(j < i);
                    }
                }
            }
            i += 1;
        }
        self.cells = kept;
        proof {
            assert forall|p: (int, int)| self@.contains(p) <==> #[trigger] old(
                self,
            )@.remove(coord@).contains(p) by {
                if old(self)@.remove(coord@).contains(p) {
                    assert(coord_seq(old(self).cells@).contains(p));
                    let j = choose|j: int|
                        0 <= j < coord_seq(old(self).cells@).len() && coord_seq(
                            old(self).cells@,
                        )[j] == p;
                    assert(coord_seq(kept@).contains(p));
                }
            }
            assert(self@ =~= old(self)@.remove(coord@));
        }
    }

    /// The live cells, in an unspecified order, each exactly once.
    pub fn iter(&self) -> (cells: Vec<CellCoord>)
        ensures
            coord_seq(cells@).no_duplicates(),
            coord_seq(cells@).to_set() == self@,
            cells@.len() == self@.len(),
    {
        proof {
            use_type_invariant(&*self);
            coord_seq(self.cells@).unique_seq_to_set();
        }
        let n = self.cells.len();
        let mut out: Vec<CellCoord> = Vec::new();
        let mut i: usize = 0;
        while i < n
            invariant
                n == self.cells@.len(),
                i <= n,
                out@ == self.cells@.take(i as int),
            decreases n - i,
        {
            let c = self.cells[i];
            proof {
                assert(self.cells@.take(i + 1) =~= self.cells@.take(i as int).push(c));
            }
            out.push(c);
            i += 1;
        }
        proof {
            assert(out@ =~= self.cells@);
        }
        out
    }

    /// The population: how many cells are live.
    pub fn len(&self) -> (n: usize)
        ensures
            n == self@.len(),
    {
        proof {
            use_type_invariant(&*self);
            coord_seq(self.cells@).unique_seq_to_set();
        }
        self.cells.len()
    }

    /// An independent copy of the configuration, live at exactly the same cells.
    pub fn duplicate(&self) -> (copy: Self)
        ensures
            copy@ == self@,
    {
        let cells = self.iter();
        let copy = CellConfiguration { cells };
        proof {
            assert(copy@ == self@);
        }
        copy
    }

    /// Every live coordinate fits the machine lattice: both components are
    /// values of a 32-bit signed integer.
    pub proof fn lemma_members_in_lattice(&self)
        ensures
            forall|p: (int, int)| self@.contains(p) ==> in_lattice(p),
    {
        assert forall|p: (int, int)| self@.contains(p) implies in_lattice(p) by {
            assert(coord_seq(self.cells@).contains(p));
            let j = choose|j: int|
                0 <= j < coord_seq(self.cells@).len() && coord_seq(self.cells@)[j] == p;
            assert(p == self.cells@[j]@);
        }
    }
}

/// The set operations are idempotent: inserting a coordinate a second time
/// leaves the configuration exactly as after the first insert, and removing
/// an absent coordinate changes nothing.
pub proof fn lemma_set_ops_idempotent(s: Set<(int, int)>, c: (int, int))
    ensures
        s.insert(c).insert(c) == s.insert(c),
        !s.contains(c) ==> s.remove(c) == s,
{
    assert(s.insert(c).insert(c) =~= s.insert(c));
    if !s.contains(c) {
        assert(s.remove(c) =~= s);
    }
}

} // verus!
