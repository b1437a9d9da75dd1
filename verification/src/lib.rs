//! Foraging ants on a small graph of points.
//!
//! Ants leave their anthill and go from point to point, each time to one
//! of the points that pheromone, food and distance make most attractive.
//! An ant that finds food lays a trail of pheromone over its route. A
//! simulator lets a colony act cycle by cycle, lets the pheromone decay,
//! applies scheduled changes of food, and keeps a record of every trial.
//!
//! The library computes on whole numbers only. Pheromone levels and scores
//! are real numbers: the library stores the levels without looking into
//! them, ranks the scores by integer keys, and takes every formula on real
//! numbers from its caller, through the trait `numerics::Numerics`. What it
//! decides itself is proved: which points an ant may go to, how candidates
//! are ranked and drawn, where the wheel of a roulette stops, which points
//! a trail covers, that food and levels never fall below nothing, that a
//! route starts at the anthill, what a batch leaves behind, and that the
//! trials of a batch repeat themselves where nothing is left to chance.

pub mod ant;
pub mod anthill;
pub mod consts;
pub mod numerics;
pub mod parse;
mod random;
pub mod ranking;
pub mod repeat;
pub mod simul;
pub mod stats;
pub mod tech;
pub mod utils;
pub mod world;
