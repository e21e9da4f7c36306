//! Substrate for a ray tracer: a fixed-size, row-major buffer of cells
//! with bounds-checked access, proved correct with Verus.
//!
//! The geometric and colour algebra works on `f64` values and lives in the
//! application crate; the buffer is generic over what a cell holds.
pub mod canvas;
