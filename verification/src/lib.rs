//! Core of a population-based artificial-life simulation.
//!
//! Herbivores and carnivores sense their surroundings through eight rays,
//! decide where to turn with three small feed-forward networks, gain and lose
//! energy, and are replaced by recombined copies of the fittest when they die.
//! All quantities that are fractional in nature (weights, distances, speeds)
//! are fixed-point integers in multiples of `1 / fixed::UNIT`.
pub mod brain;
pub mod collisionobjectdata;
pub mod config;
pub mod entity;
pub mod fixed;
pub mod food;
pub mod gamestate;
pub mod groups;
pub mod interaction;
pub mod placement;
pub mod population;
pub mod random_helper;
pub mod randomwalker;
pub mod record;
pub mod wall;
