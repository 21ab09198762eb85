//! Core geometry of a procedural tunnel renderer.
//!
//! Three layers of a 2D pipeline are covered here, bottom up:
//!
//! * [`contour`] — the discrete heart of a marching-squares contour
//!   extractor: packing corner samples into a case index and resolving
//!   that index, with its two ambiguous diagonal entries, into the edge
//!   pairs a grid cell contributes.
//! * [`stroke`] — the step sequence a stroke tessellator follows when it
//!   expands a polyline into round-joined, round-capped triangles, and
//!   the closed-form triangle counts that sequence guarantees.
//! * [`style`] — the plain value types the surrounding renderer keys its
//!   draw batches and text layout by.
//!
//! Floating-point sampling and vertex emission live with the caller; the
//! caller drives them from the verified plans and tables in this crate.

pub mod contour;
pub mod stroke;
pub mod style;
