//! Game entities kept as nodes and typed edges in a graph store, and a
//! turn-based combat engine that runs on resolved entities.

pub mod database;
pub mod fight;
pub mod json;
pub mod pokemon;
pub mod trainer;
