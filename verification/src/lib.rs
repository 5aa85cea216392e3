//! Verified core of a molecular-surface renderer.
//!
//! A molecule is a set of atom centres. The library builds a uniform voxel
//! grid over the atoms (a flat CSR bucket layout), and sphere-marches rays
//! through an implicit surface built from the atoms and a solvent radius.
//! A per-pixel distance cache lets a static view refine across frames.
//!
//! All coordinates and distances are fixed-point integers: one unit of world
//! space is `SCALE` ticks. Window/GPU plumbing and the trigonometric camera
//! basis live outside the library; they hand in plain fixed-point values.

pub mod application;
pub mod cache;
pub mod camera;
pub mod geom;
pub mod grid;
pub mod march;
pub mod ui;
pub mod utils;

pub use utils::RoundToMultiple;
