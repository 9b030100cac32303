//! The transition engine: one generation of the neighbor-driven rule.
//!
//! A dead cell with exactly 3 live neighbors becomes alive; a live cell with
//! 2 or 3 live neighbors stays alive; every other cell is dead in the next
//! generation.  Work is bounded by the population: only the live cells and
//! their neighbors are ever evaluated.

use vstd::prelude::*;

use crate::cell_configuration::{coord_seq, CellConfiguration};
use crate::cell_coord::{adjacent, in_lattice, CellCoord};

verus! {

broadcast use vstd::seq_lib::lemma_seq_contains_after_push;

/// 1 if the cell at (x, y) is live in `s`, else 0.
pub open spec fn live_ind(s: Set<(int, int)>, x: int, y: int) -> int {
    if s.contains((x, y)) {
        1
    } else {
        0
    }
}

/// How many of the 8 Moore neighbors of `p` are live in `s`.
pub open spec fn neighbor_count(s: Set<(int, int)>, p: (int, int)) -> int {
    live_ind(s, p.0 - 1, p.1 - 1) + live_ind(s, p.0, p.1 - 1) + live_ind(s, p.0 + 1, p.1 - 1)
        + live_ind(s, p.0 - 1, p.1) + live_ind(s, p.0 + 1, p.1) + live_ind(s, p.0 - 1, p.1 + 1)
        + live_ind(s, p.0, p.1 + 1) + live_ind(s, p.0 + 1, p.1 + 1)
}

/// The birth/survival rule for one cell.
pub open spec fn lives_next(s: Set<(int, int)>, p: (int, int)) -> bool {
    if s.contains(p) {
        neighbor_count(s, p) == 2 || neighbor_count(s, p) == 3
    } else {
        neighbor_count(s, p) == 3
    }
}

/// One generation of the rule on the unbounded mathematical lattice.
pub open spec fn rule_step(s: Set<(int, int)>) -> Set<(int, int)> {
    Set::new(|p: (int, int)| lives_next(s, p))
}

/// One generation as the engine computes it: the rule, restricted to the
/// machine lattice.  A birth whose coordinates do not fit a 32-bit signed
/// integer is dropped; on configurations that keep away from that boundary
/// the two notions agree (`lemma_engine_step_is_rule_step`).
pub open spec fn engine_step(s: Set<(int, int)>) -> Set<(int, int)> {
    Set::new(|p: (int, int)| lives_next(s, p) && in_lattice(p))
}

/// The configuration after `n` generations of the engine's step.
pub open spec fn step_n(s: Set<(int, int)>, n: nat) -> Set<(int, int)>
    decreases n,
{
    if n == 0 {
        s
    } else {
        engine_step(step_n(s, (n - 1) as nat))
    }
}

/// The candidate cells of a configuration: the live cells and their neighbors.
/// Only these can be live in the next generation.
pub open spec fn candidates(s: Set<(int, int)>) -> Set<(int, int)> {
    Set::new(
        |p: (int, int)|
            s.contains(p) || exists|q: (int, int)| s.contains(q) && adjacent(p, q),
    )
}

/// A cell that is live in the next generation is a candidate: it is live now,
/// or it has a live neighbor.
pub proof fn lemma_next_is_candidate(s: Set<(int, int)>, p: (int, int))
    requires
        lives_next(s, p),
    ensures
        candidates(s).contains(p),
{
    if !s.contains(p) {
        let q = if s.contains((p.0 - 1, p.1 - 1)) {
            (p.0 - 1, p.1 - 1)
        } else if s.contains((p.0, p.1 - 1)) {
            (p.0, p.1 - 1)
        } else if s.contains((p.0 + 1, p.1 - 1)) {
            (p.0 + 1, p.1 - 1)
        } else if s.contains((p.0 - 1, p.1)) {
            (p.0 - 1, p.1)
        } else if s.contains((p.0 + 1, p.1)) {
            (p.0 + 1, p.1)
        } else if s.contains((p.0 - 1, p.1 + 1)) {
            (p.0 - 1, p.1 + 1)
        } else if s.contains((p.0, p.1 + 1)) {
            (p.0, p.1 + 1)
        } else if s.contains((p.0 + 1, p.1 + 1)) {
            (p.0 + 1, p.1 + 1)
        } else {
            assert(neighbor_count(s, p) == 0);
            (p.0, p.1)
        };
        assert(s.contains(q) && adjacent(p, q));
    }
}

/// A point equal or adjacent to `q` is one of the nine points of the
/// 3-by-3 neighborhood centered on `q`.
proof fn lemma_adjacent_enum(p: (int, int), q: (int, int))
    requires
        p == q || adjacent(p, q),
    ensures
        p == (q.0 - 1, q.1 - 1) || p == (q.0, q.1 - 1) || p == (q.0 + 1, q.1 - 1) || p == (
        q.0 - 1,
        q.1,
        ) || p == (q.0, q.1) || p == (q.0 + 1, q.1) || p == (q.0 - 1, q.1 + 1) || p == (
        q.0,
        q.1 + 1,
        ) || p == (q.0 + 1, q.1 + 1),
{
    assert(p == (p.0, p.1));
}

/// The nine points centered on `p` that lie on the machine lattice are all
/// held by `cs`.
spec fn covered_by(cs: Seq<(int, int)>, p: (int, int)) -> bool {
    &&& in_lattice((p.0 - 1, p.1 - 1)) ==> cs.contains((p.0 - 1, p.1 - 1))
    &&& in_lattice((p.0, p.1 - 1)) ==> cs.contains((p.0, p.1 - 1))
    &&& in_lattice((p.0 + 1, p.1 - 1)) ==> cs.contains((p.0 + 1, p.1 - 1))
    &&& in_lattice((p.0 - 1, p.1)) ==> cs.contains((p.0 - 1, p.1))
    &&& in_lattice((p.0, p.1)) ==> cs.contains((p.0, p.1))
    &&& in_lattice((p.0 + 1, p.1)) ==> cs.contains((p.0 + 1, p.1))
    &&& in_lattice((p.0 - 1, p.1 + 1)) ==> cs.contains((p.0 - 1, p.1 + 1))
    &&& in_lattice((p.0, p.1 + 1)) ==> cs.contains((p.0, p.1 + 1))
    &&& in_lattice((p.0 + 1, p.1 + 1)) ==> cs.contains((p.0 + 1, p.1 + 1))
}

/// Append the cell at (x, y) to the candidate list when it lies on the
/// machine lattice; otherwise leave the list unchanged.
fn push_candidate(cands: &mut Vec<CellCoord>, x: i64, y: i64)
    ensures
        forall|q: (int, int)| #[trigger]
            coord_seq(final(cands)@).contains(q) <==> (coord_seq(old(cands)@).contains(q) || (q == (
                x as int,
                y as int,
            ) && in_lattice(q))),
{
    if x >= i32::MIN as i64 && x <= i32::MAX as i64 && y >= i32::MIN as i64 && y
        <= i32::MAX as i64 {
        let c = CellCoord::new(x as i32, y as i32);
        proof {
            assert(c@ == (x as int, y as int));
            assert(coord_seq(cands@.push(c)) =~= coord_seq(cands@).push(c@));
        }
        cands.push(c);
    } else {
        proof {
            assert(!in_lattice((x as int, y as int)));
        }
    }
}

/// Whether the cell at (x, y) is live; the point need not lie on the
/// machine lattice, in which case it is dead.
fn live_at(g: &CellConfiguration, x: i64, y: i64) -> (live: bool)
    ensures
        live == g@.contains((x as int, y as int)),
{
    if x >= i32::MIN as i64 && x <= i32::MAX as i64 && y >= i32::MIN as i64 && y
        <= i32::MAX as i64 {
        g.get(CellCoord::new(x as i32, y as i32))
    } else {
        proof {
            g.lemma_members_in_lattice();
            assert(!in_lattice((x as int, y as int)));
        }
        false
    }
}

/// How many of the 8 neighbors of `coord` are live.
fn count_live_neighbors(g: &CellConfiguration, coord: CellCoord) -> (n: u32)
    ensures
        n == neighbor_count(g@, coord@),
{
    let x = coord.x as i64;
    let y = coord.y as i64;
    let mut n: u32 = 0;
    if live_at(g, x - 1, y - 1) {
        n += 1;
    }
    if live_at(g, x, y - 1) {
        n += 1;
    }
    if live_at(g, x + 1, y - 1) {
        n += 1;
    }
    if live_at(g, x - 1, y) {
        n += 1;
    }
    if live_at(g, x + 1, y) {
        n += 1;
    }
    if live_at(g, x - 1, y + 1) {
        n += 1;
    }
    if live_at(g, x, y + 1) {
        n += 1;
    }
    if live_at(g, x + 1, y + 1) {
        n += 1;
    }
    n
}

/// Produce the next generation of `g` under the birth/survival rule.
///
/// The input is not mutated; the result is a new configuration.  Only the
/// candidate cells — the live cells and their neighbors — are evaluated.
pub fn transition(g: &CellConfiguration) -> (next: CellConfiguration)
    ensures
        next@ == engine_step(g@),
{
    let live = g.iter();
    let nlive = live.len();

    // Gather the candidate cells: each live cell and its eight neighbors.
    let mut cands: Vec<CellCoord> = Vec::new();
    let mut i: usize = 0;
    while i < nlive
        invariant
            nlive == live@.len(),
            i <= nlive,
            coord_seq(live@).to_set() == g@,
            forall|j: int| 0 <= j < i ==> covered_by(coord_seq(cands@), #[trigger] coord_seq(live@)[j]),
        decreases nlive - i,
    {
        let c = live[i];
        let x = c.x as i64;
        let y = c.y as i64;
        let ghost before = coord_seq(cands@);
        push_candidate(&mut cands, x - 1, y - 1);
        push_candidate(&mut cands, x, y - 1);
        push_candidate(&mut cands, x + 1, y - 1);
        push_candidate(&mut cands, x - 1, y);
        push_candidate(&mut cands, x, y);
        push_candidate(&mut cands, x + 1, y);
        push_candidate(&mut cands, x - 1, y + 1);
        push_candidate(&mut cands, x, y + 1);
        push_candidate(&mut cands, x + 1, y + 1);
        proof {
            let after = coord_seq(cands@);
            assert(coord_seq(live@)[i as int] == c@);
            assert forall|q: (int, int)| before.contains(q) implies #[trigger] after.contains(
                q,
            ) by {}
            assert(covered_by(after, c@));
            assert forall|j: int| 0 <= j < i + 1 implies covered_by(
                after,
                #[trigger] coord_seq(live@)[j],
            ) by {
                if j < i {
                    assert(covered_by(before, coord_seq(live@)[j]));
                }
            }
        }
        i += 1;
    }

    // Evaluate the rule at every candidate.
    let ncands = cands.len();
    let mut next = CellConfiguration::new();
    let mut k: usize = 0;
    while k < ncands
        invariant
            ncands == cands@.len(),
            k <= ncands,
            forall|p: (int, int)| #[trigger]
                next@.contains(p) <==> (lives_next(g@, p) && coord_seq(cands@).take(
                    k as int,
                ).contains(p)),
        decreases ncands - k,
    {
        let c = cands[k];
        let live_now = g.get(c);
        let n = count_live_neighbors(g, c);
        let stays = if live_now {
            n == 2 || n == 3
        } else {
            n == 3
        };
        proof {
            assert(stays == lives_next(g@, c@));
            assert(coord_seq(cands@).take(k + 1) =~= coord_seq(cands@).take(k as int).push(c@));
        }
        if stays {
            next.spawn(c);
        }
        k += 1;
    }

    proof {
        let cs = coord_seq(cands@);
        assert(cs.take(ncands as int) =~= cs);
        assert forall|p: (int, int)| #[trigger] next@.contains(p) implies engine_step(
            g@,
        ).contains(p) by {
            let j = choose|j: int| 0 <= j < cs.len() && cs[j] == p;
            assert(p == cands@[j]@);
        }
        assert forall|p: (int, int)| engine_step(g@).contains(p) implies #[trigger] next@.contains(
            p,
        ) by {
            lemma_next_is_candidate(g@, p);
            if g@.contains(p) {
                assert(coord_seq(live@).contains(p));
                let j = choose|j: int|
                    0 <= j < coord_seq(live@).len() && coord_seq(live@)[j] == p;
                assert(covered_by(cs, coord_seq(live@)[j]));
                lemma_adjacent_enum(p, p);
                assert(cs.contains(p));
            } else {
                let q = choose|q: (int, int)| g@.contains(q) && adjacent(p, q);
                assert(coord_seq(live@).contains(q));
                let j = choose|j: int|
                    0 <= j < coord_seq(live@).len() && coord_seq(live@)[j] == q;
                assert(covered_by(cs, coord_seq(live@)[j]));
                lemma_adjacent_enum(p, q);
                assert(cs.contains(p));
            }
        }
        assert(next@ =~= engine_step(g@));
    }
    next
}

/// Advance a configuration in place by one generation.
pub fn simulation(configuration: &mut CellConfiguration)
    ensures
        final(configuration)@ == engine_step(old(configuration)@),
{
    let next = transition(configuration);
    *configuration = next;
}

/// The transition is deterministic: two results of stepping the same
/// configuration are set-equal.
pub proof fn lemma_transition_deterministic(
    g: Set<(int, int)>,
    r1: Set<(int, int)>,
    r2: Set<(int, int)>,
)
    requires
        r1 == engine_step(g),
        r2 == engine_step(g),
    ensures
        r1 == r2,
{
}

/// Evaluating the rule over the candidates alone is equivalent to a
/// brute-force evaluation over any bounding region that encloses them:
/// outside the candidates every cell is dead in the next generation.
pub proof fn lemma_sparse_equivalence(
    s: Set<(int, int)>,
    lo_x: int,
    lo_y: int,
    hi_x: int,
    hi_y: int,
)
    requires
        forall|p: (int, int)| #[trigger]
            candidates(s).contains(p) ==> lo_x <= p.0 <= hi_x && lo_y <= p.1 <= hi_y,
    ensures
        rule_step(s) == Set::new(
            |p: (int, int)| lo_x <= p.0 <= hi_x && lo_y <= p.1 <= hi_y && lives_next(s, p),
        ),
{
    assert forall|p: (int, int)| rule_step(s).contains(p) implies Set::new(
        |p: (int, int)| lo_x <= p.0 <= hi_x && lo_y <= p.1 <= hi_y && lives_next(s, p),
    ).contains(p) by {
        lemma_next_is_candidate(s, p);
    }
    assert(rule_step(s) =~= Set::new(
        |p: (int, int)| lo_x <= p.0 <= hi_x && lo_y <= p.1 <= hi_y && lives_next(s, p),
    ));
}

/// On a configuration that keeps one cell away from the edge of the machine
/// lattice, the engine's step agrees with the rule on the unbounded lattice:
/// nothing is dropped at the representable boundary.
pub proof fn lemma_engine_step_is_rule_step(s: Set<(int, int)>)
    requires
        forall|p: (int, int)| #[trigger]
            s.contains(p) ==> i32::MIN < p.0 < i32::MAX && i32::MIN < p.1 < i32::MAX,
    ensures
        engine_step(s) == rule_step(s),
{
    assert forall|p: (int, int)| rule_step(s).contains(p) implies engine_step(s).contains(p) by {
        lemma_next_is_candidate(s, p);
        if s.contains(p) {
        } else {
            let q = choose|q: (int, int)| s.contains(q) && adjacent(p, q);
            assert(in_lattice(p));
        }
    }
    assert(engine_step(s) =~= rule_step(s));
}

} // verus!
