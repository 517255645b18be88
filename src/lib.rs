//! Exact planar containment and area on integer lattice coordinates.
//!
//! Geometries are points, segments, paths, polygons with holes, polygon
//! collections and axis-aligned boxes. Every predicate and measure is total
//! and computed with exact integer arithmetic.

pub mod types;
pub mod intersects;
pub mod contains;
pub mod area;
pub mod traits;
