//! Palette quantization: map every pixel of an image to the nearest color of a
//! fixed 20-entry palette under squared Euclidean distance in RGB space, with
//! first-minimum tie-breaking and a memoization cache.

pub mod color;
pub mod image_grid;
pub mod naming;
pub mod palette;
pub mod quantizer;

pub use color::Color;
