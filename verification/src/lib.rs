//! Solvers and analyzers for a turn-based crafting minigame.
//!
//! A craft has a progress meter and a quality meter to fill, and a budget of
//! durability and of craft points to fill them with; each action spends of
//! the budget and moves the meters or sets a buff. The solvers here look for
//! the list of actions that reaches the most progress, then the most quality,
//! then does so in the fewest steps; the analyzers say how a given list fares
//! under chance and under other attributes.
//!
//! - [`craft`] holds the crafting state as plain values, [`engine`] the
//!   boundary to the simulator that knows the rules, and [`rules`] what a
//!   state allows and becomes.
//! - [`solver`] holds the score, the memoised dynamic-programming solvers, the
//!   composite solvers built on them, and the depth-first searches.
//! - [`analyzer`] holds the outcome statistics and the scope of application.
//! - [`registry`] keeps solvers by the craft they were made for.
//!
//! The contracts are stated over the simulator's answers as named values:
//! they say exactly what each function makes of these answers, and nothing
//! about the answers themselves beyond what [`engine`] states.

pub mod analyzer;
pub mod craft;
pub mod engine;
pub mod registry;
pub mod rules;
pub mod simulation;
pub mod solver;

pub use simulation::{
    allowed_list, craftpoints_list, high_quality_probability, new_status, simulate,
    simulate_one_step, CastErrorPos, SimulateOneStepResult, SimulateResult,
};
