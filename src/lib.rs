//! Cellular-automaton kernels on a toroidal grid.
pub mod board;
pub mod cell;
pub mod laws;
pub mod messages;
pub mod rules;
pub mod session;
pub mod smooth;
pub mod torus;
