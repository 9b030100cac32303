//! A verified cellular-automaton engine on an unbounded integer lattice.
//!
//! The grid is a sparse set of live coordinates; each generation is produced
//! by a pure transition under the neighbor-count birth/survival rule,
//! preceded by a read-only lifecycle (diagnostic) pass.  A run controller
//! drives bounded runs of generations, an orchestrator drives bounded
//! sequences of runs, and every completed generation is published as an
//! immutable snapshot through a single-slot broadcast feed that any number
//! of consumers poll at their own cadence.

pub mod cell_configuration;
pub mod cell_coord;
pub mod feed;
pub mod lifecycle;
pub mod orchestrator;
pub mod run_controller;
pub mod simulation_state;
pub mod startup;
pub mod transition;
