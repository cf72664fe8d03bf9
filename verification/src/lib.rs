//! Off-axis (asymmetric-frustum) projection matrices for head-mounted displays,
//! built without touching a floating-point unit.
//!
//! Every number is carried as the 32 bits of its IEEE 754 binary32 encoding. The
//! library decides where the far plane lies, lays the arithmetic out as a
//! straight-line schedule, and runs that schedule against an arithmetic backend
//! that the caller supplies. What it proves is which formula ends up in which
//! cell of the matrix, whatever the backend is.
//!
//! - [`binary32`]: the encoding, its exact values, the comparison `<=` and the
//!   negation.
//! - [`params`]: the field of view, the clipping distances, the clip-space
//!   convention, and the choice of the far plane.
//! - [`schedule`]: steps, the formulas they compute, and their run against a
//!   backend.
//! - [`matrix`]: the formula of each cell, the plan that computes them, and
//!   [`params::XRProjection::get_projection_matrix`].
//! - [`laws`]: what follows for every view and every backend.

pub mod binary32;
pub mod laws;
pub mod matrix;
pub mod params;
pub mod schedule;
