//! A rectangular box mesh, whole-mesh translation and ASCII STL rendering.
//!
//! Coordinates are whole numbers of the model's length unit, held as `i64`;
//! every contract is stated over the exact integer model of a value.
pub mod geometry;
pub mod mesh;
pub mod stl;
