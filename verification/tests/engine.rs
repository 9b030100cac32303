use thanatos::cell_configuration::CellConfiguration;
use thanatos::cell_coord::CellCoord;
use thanatos::lifecycle::lifecycle_pass;
use thanatos::transition::transition;

fn config_of(points: &[(i32, i32)]) -> CellConfiguration {
    let mut config = CellConfiguration::new();
    for &p in points {
        config.spawn(CellCoord::from_tuple(p));
    }
    config
}

fn same_cells(a: &CellConfiguration, b: &CellConfiguration) -> bool {
    if a.len() != b.len() {
        return false;
    }
    a.iter().iter().all(|c| b.get(*c))
}

#[test]
fn coord_round_trips() {
    let c = CellCoord::new(-3, 7);
    assert_eq!(c.x, -3);
    assert_eq!(c.y, 7);
    assert_eq!(c.to_tuple(), (-3, 7));
    assert_eq!(CellCoord::from_tuple((-3, 7)), c);
}

#[test]
fn spawn_is_idempotent() {
    let mut g = CellConfiguration::new();
    g.spawn(CellCoord::new(1, 2));
    let once = g.duplicate();
    g.spawn(CellCoord::new(1, 2));
    assert_eq!(g.len(), 1);
    assert!(same_cells(&g, &once));
}

#[test]
fn despawn_absent_is_noop() {
    let g0 = config_of(&[(0, 0), (5, -5)]);
    let mut g = g0.duplicate();
    g.despawn(CellCoord::new(9, 9));
    assert_eq!(g.len(), 2);
    assert!(same_cells(&g, &g0));
}

#[test]
fn despawn_removes_cell() {
    let mut g = config_of(&[(0, 0), (5, -5)]);
    g.despawn(CellCoord::new(5, -5));
    assert_eq!(g.len(), 1);
    assert!(g.get(CellCoord::new(0, 0)));
    assert!(!g.get(CellCoord::new(5, -5)));
}

#[test]
fn iter_lists_each_live_cell_once() {
    let g = config_of(&[(0, 0), (1, 0), (0, 1)]);
    let cells = g.iter();
    assert_eq!(cells.len(), 3);
    for c in &cells {
        assert!(g.get(*c));
    }
    for i in 0..cells.len() {
        for j in 0..cells.len() {
            if i != j {
                assert_ne!(cells[i], cells[j]);
            }
        }
    }
}

#[test]
fn lone_cell_dies_of_underpopulation() {
    let g = config_of(&[(0, 0)]);
    let next = transition(&g);
    assert_eq!(next.len(), 0);
}

#[test]
fn block_is_a_still_life() {
    let block = config_of(&[(0, 0), (1, 0), (0, 1), (1, 1)]);
    let next = transition(&block);
    assert!(same_cells(&next, &block));
}

#[test]
fn blinker_oscillates_with_period_two() {
    let phase_a = config_of(&[(0, 0), (1, 0), (2, 0)]);
    let phase_b = config_of(&[(1, -1), (1, 0), (1, 1)]);
    let after_one = transition(&phase_a);
    assert!(same_cells(&after_one, &phase_b));
    let after_two = transition(&after_one);
    assert!(same_cells(&after_two, &phase_a));
}

#[test]
fn transition_is_deterministic() {
    let g = config_of(&[(0, 0), (1, 0), (2, 0), (2, 1), (1, 2)]);
    let r1 = transition(&g);
    let r2 = transition(&g);
    assert!(same_cells(&r1, &r2));
}

#[test]
fn transition_does_not_mutate_its_input() {
    let g = config_of(&[(0, 0), (1, 0), (2, 0)]);
    let _ = transition(&g);
    assert_eq!(g.len(), 3);
    assert!(g.get(CellCoord::new(0, 0)));
    assert!(g.get(CellCoord::new(1, 0)));
    assert!(g.get(CellCoord::new(2, 0)));
}

#[test]
fn sparse_matches_brute_force_over_bounding_box() {
    // A glider: compare the sparse transition against a dense evaluation of
    // every cell of a box enclosing the live cells plus a margin of two.
    let g = config_of(&[(1, 0), (2, 1), (0, 2), (1, 2), (2, 2)]);
    let next = transition(&g);
    let mut brute: Vec<(i32, i32)> = Vec::new();
    for x in -3..7 {
        for y in -3..7 {
            let mut neighbors = 0;
            for dx in -1..2 {
                for dy in -1..2 {
                    if (dx, dy) != (0, 0) && g.get(CellCoord::new(x + dx, y + dy)) {
                        neighbors += 1;
                    }
                }
            }
            let alive = g.get(CellCoord::new(x, y));
            if (alive && (neighbors == 2 || neighbors == 3)) || (!alive && neighbors == 3) {
                brute.push((x, y));
            }
        }
    }
    assert_eq!(next.len(), brute.len());
    for p in brute {
        assert!(next.get(CellCoord::from_tuple(p)));
    }
}

#[test]
fn lifecycle_reports_population_and_bounds() {
    let g = config_of(&[(-2, 3), (4, 3), (1, -1)]);
    let report = lifecycle_pass(&g);
    assert_eq!(report.population, 3);
    let b = report.bounds.unwrap();
    assert_eq!(b.min_x, -2);
    assert_eq!(b.max_x, 4);
    assert_eq!(b.min_y, -1);
    assert_eq!(b.max_y, 3);
}

#[test]
fn lifecycle_of_empty_has_no_bounds() {
    let g = CellConfiguration::new();
    let report = lifecycle_pass(&g);
    assert_eq!(report.population, 0);
    assert!(report.bounds.is_none());
}

#[test]
fn lifecycle_does_not_alter_the_configuration() {
    let g = config_of(&[(0, 0), (1, 1)]);
    let _ = lifecycle_pass(&g);
    assert_eq!(g.len(), 2);
    assert!(g.get(CellCoord::new(0, 0)));
    assert!(g.get(CellCoord::new(1, 1)));
}
