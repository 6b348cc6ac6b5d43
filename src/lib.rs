//! Identifiers and hex coordinates for a tile-based simulation: an interner
//! from namespaced names to dense handles, the registry of tile definitions
//! built from data records, display strings, key bindings, and the algebra of
//! cube coordinates on a hex grid.

pub mod coord;
pub mod id;
pub mod input;
pub mod item;
pub mod registry;
pub mod resource;
pub mod tile;
pub mod translate;
