//! The analyzers of a fixed action list.

pub mod rand_simulations;
pub mod scope_of_application;
