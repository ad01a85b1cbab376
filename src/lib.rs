//! A two-colour probabilistic cellular automaton ("pixel fight"): a grid of
//! boolean cells evolves under a stochastic neighbour-ratio rule until every
//! cell holds the same value.
pub mod config;
pub mod control;
pub mod game;
pub mod grid;
pub mod rng;
pub mod timestep;

pub use config::Config;
