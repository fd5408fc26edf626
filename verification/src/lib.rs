//! Search-and-rank engine for equipment builds: enumeration of gear
//! assignments, a bounded collector of the best builds, and the selection of
//! the extras combinations that deserve a full search.

pub mod affix;
pub mod attribute;
pub mod traversal;
pub mod collector;
pub mod evaluator;
pub mod heuristic;
pub mod profession;
pub mod progress;
pub mod score;
pub mod search;
