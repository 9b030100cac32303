use thanatos::cell_configuration::CellConfiguration;
use thanatos::cell_coord::CellCoord;
use thanatos::feed::SnapshotFeed;
use thanatos::orchestrator::{run_blocking, validate_parameters, SimulationParameters, StartupError};
use thanatos::run_controller::RunController;
use thanatos::simulation_state::{interactive_tick, SimulationState};
use thanatos::startup::StartupParameters;
use thanatos::transition::transition;

fn blinker_seed() -> CellConfiguration {
    let mut seed = CellConfiguration::new();
    seed.spawn(CellCoord::new(0, 0));
    seed.spawn(CellCoord::new(1, 0));
    seed.spawn(CellCoord::new(2, 0));
    seed
}

#[test]
fn feed_starts_with_the_empty_snapshot() {
    let feed = SnapshotFeed::new();
    let snap = feed.read_snapshot();
    assert_eq!(snap.generation, 0);
    assert_eq!(snap.run_index, 0);
    assert_eq!(snap.cell_configuration.len(), 0);
}

#[test]
fn feed_read_returns_what_was_published() {
    let feed = SnapshotFeed::new();
    let controller = RunController::new(blinker_seed(), 10);
    feed.publish(controller.snapshot(4));
    let snap = feed.read_snapshot();
    assert_eq!(snap.generation, 0);
    assert_eq!(snap.run_index, 4);
    assert_eq!(snap.cell_configuration.len(), 3);
    assert!(snap.cell_configuration.get(CellCoord::new(1, 0)));
}

#[test]
fn feed_replaces_older_snapshots() {
    let feed = SnapshotFeed::new();
    let mut controller = RunController::new(blinker_seed(), 10);
    feed.publish(controller.snapshot(0));
    controller.advance();
    feed.publish(controller.snapshot(0));
    let snap = feed.read_snapshot();
    assert_eq!(snap.generation, 1);
    assert!(snap.cell_configuration.get(CellCoord::new(1, -1)));
    assert!(snap.cell_configuration.get(CellCoord::new(1, 1)));
}

#[test]
fn reader_observes_nondecreasing_generations() {
    let feed = SnapshotFeed::new();
    let mut controller = RunController::new(blinker_seed(), 8);
    let mut observed: Vec<u32> = vec![feed.read_snapshot().generation];
    while !controller.is_exhausted() {
        controller.advance();
        feed.publish(controller.snapshot(0));
        if controller.generation() % 2 == 0 {
            // a reader polling at its own, slower cadence
            observed.push(feed.read_snapshot().generation);
        }
    }
    observed.push(feed.read_snapshot().generation);
    for w in observed.windows(2) {
        assert!(w[0] <= w[1]);
    }
}

#[test]
fn snapshot_is_one_completed_generation() {
    let feed = SnapshotFeed::new();
    let mut controller = RunController::new(blinker_seed(), 5);
    controller.advance();
    controller.advance();
    controller.advance();
    feed.publish(controller.snapshot(0));
    let snap = feed.read_snapshot();
    // the snapshot equals the seed advanced exactly `generation` times
    let mut expected = blinker_seed();
    for _ in 0..snap.generation {
        expected = transition(&expected);
    }
    assert_eq!(snap.generation, 3);
    assert_eq!(snap.cell_configuration.len(), expected.len());
    for c in expected.iter() {
        assert!(snap.cell_configuration.get(c));
    }
}

#[test]
fn run_controller_counts_generations() {
    let mut controller = RunController::new(blinker_seed(), 2);
    assert_eq!(controller.generation(), 0);
    assert!(!controller.is_exhausted());
    controller.advance();
    assert_eq!(controller.generation(), 1);
    assert!(!controller.is_exhausted());
    let report = controller.advance();
    assert_eq!(report.population, 3);
    assert_eq!(controller.generation(), 2);
    assert!(controller.is_exhausted());
}

#[test]
fn zero_generation_cap_is_refused() {
    assert_eq!(
        validate_parameters(3, 0),
        Err(StartupError::ZeroGenerationCap)
    );
    assert_eq!(validate_parameters(3, 1), Ok(()));
    let parameters = SimulationParameters {
        feed: SnapshotFeed::new(),
        max_run_count: 3,
        max_generation_count: 0,
        run_uncapped: true,
        blocking: true,
    };
    let outcome = run_blocking(&parameters, &blinker_seed());
    assert_eq!(outcome, Err(StartupError::ZeroGenerationCap));
}

#[test]
fn blocking_session_spends_exactly_its_budget() {
    let feed = SnapshotFeed::new();
    let parameters = SimulationParameters {
        feed: feed.clone(),
        max_run_count: 3,
        max_generation_count: 4,
        run_uncapped: true,
        blocking: true,
    };
    let stats = run_blocking(&parameters, &blinker_seed()).unwrap();
    assert_eq!(stats.runs_completed, 3);
    assert_eq!(stats.generations_published, 12);
    let last = feed.read_snapshot();
    assert_eq!(last.generation, 4);
    assert_eq!(last.run_index, 2);
    // after 4 generations the blinker is back at its row phase
    assert!(last.cell_configuration.get(CellCoord::new(0, 0)));
    assert!(last.cell_configuration.get(CellCoord::new(1, 0)));
    assert!(last.cell_configuration.get(CellCoord::new(2, 0)));
}

#[test]
fn startup_parameters_select_the_session_mode() {
    let request = StartupParameters { max_runs: 2, max_generations: 9, run_headless: true };
    let parameters = request.simulation_parameters(SnapshotFeed::new());
    assert_eq!(parameters.max_run_count, 2);
    assert_eq!(parameters.max_generation_count, 9);
    assert!(parameters.blocking);
    assert!(parameters.run_uncapped);
}

#[test]
fn paused_simulation_does_not_advance() {
    let mut state = SimulationState::new();
    state.cell_configuration = blinker_seed();
    let advanced = interactive_tick(&mut state, true);
    assert!(!advanced);
    assert_eq!(state.cell_configuration.len(), 3);
    assert!(state.cell_configuration.get(CellCoord::new(0, 0)));
}

#[test]
fn running_simulation_advances_on_the_tick() {
    let mut state = SimulationState::new();
    state.cell_configuration = blinker_seed();
    state.is_running = true;
    assert!(!interactive_tick(&mut state, false));
    assert!(state.cell_configuration.get(CellCoord::new(0, 0)));
    assert!(interactive_tick(&mut state, true));
    assert!(state.cell_configuration.get(CellCoord::new(1, -1)));
    assert!(!state.cell_configuration.get(CellCoord::new(0, 0)));
}

#[test]
fn single_step_advances_once_and_is_consumed() {
    let mut state = SimulationState::new();
    state.cell_configuration = blinker_seed();
    state.step_once = true;
    assert!(interactive_tick(&mut state, false));
    assert!(!state.step_once);
    assert!(state.cell_configuration.get(CellCoord::new(1, -1)));
    // the request was consumed: nothing advances until the next request
    assert!(!interactive_tick(&mut state, false));
    assert!(state.cell_configuration.get(CellCoord::new(1, -1)));
}
