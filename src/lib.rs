//! Field abstraction and numerical translation operators for a
//! kernel-independent fast multipole method.
//!
//! Coefficient matrices are generic over their scalar type; the layout of the
//! check surface is computed exactly on an integer lattice.

pub mod error;
pub mod field;
pub mod matrix;
pub mod sources;
pub mod translation;
