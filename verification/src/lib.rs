//! Pixelate library crate.
//!
//! This crate exposes verified image filters and small composition
//! utilities. Every filter is a pure transformation from one raster to a
//! freshly allocated one, with a contract that pins the output down pixel
//! by pixel.

/// Shared color-related constants (fixed-point sRGB luminance weights).
pub mod color;
/// The error taxonomy shared by filters and the pipeline composer.
pub mod error;
/// Filter trait and built-in filters.
pub mod filters;
/// Simple, typed filter composition utilities.
pub mod pipeline;
/// The raster buffer and its mathematical model.
pub mod raster;
