//! A two-dimensional camera on the integer lattice.
//!
//! World and viewport coordinates are whole numbers, the camera turns in
//! quarter turns and zooms by whole factors, so every transform is exact and
//! every statement about it is proved rather than approximated. The inverse
//! of a zoom divides, so `project` and `unproject` work on points with
//! rational coordinates and undo each other exactly; `project_floor` and
//! `unproject_lattice` stay on the lattice.

pub mod math;
pub mod camera;
pub mod laws;
