//! Marching-tetrahedra iso-surface extraction over a regular grid, with the
//! combinatorial core stated and proved over integer grid coordinates.

pub mod marcher;
pub mod mesh;
pub mod orientation;
pub mod refine;
pub mod samples;
pub mod surface;
pub mod symmetry;
pub mod tables;
pub mod vector;
