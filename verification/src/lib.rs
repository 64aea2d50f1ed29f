//! Image quality assessment: sharpness by the variance of a discrete Laplacian,
//! exposure by a luma-weighted mean brightness, and the fixed thresholds that
//! turn the two scores into a verdict.
//!
//! All arithmetic is exact. Scores are rational numbers held as integers, so
//! every threshold decision is the mathematical one.
//!
//! - `score`: exact non-negative rational numbers and their comparison.
//! - `stats`: the population variance of a sample of integers.
//! - `grid`: the pixel grid that the analyzers read.
//! - `sharpness`: Laplacian responses and the blur score.
//! - `brightness`: the luma-weighted mean brightness.
//! - `quality`: the thresholds and the verdict.
//! - `data_uri`: the base64 payload of a data URI.
//! - `codec`: what is taken on trust from the `base64` and `image` crates.
//! - `validate`: the way from a base64 string to a verdict.
//! - `laws`: what holds of every grid and every verdict.

pub mod brightness;
pub mod codec;
pub mod data_uri;
pub mod grid;
pub mod laws;
pub mod quality;
pub mod score;
pub mod sharpness;
pub mod stats;
pub mod validate;

pub use brightness::calculate_brightness;
pub use grid::{PixelGrid, Rgb};
pub use quality::{analyze_image_quality, ImageQualityResult};
pub use score::{Ratio, Score};
pub use sharpness::calculate_blur_score;
pub use validate::{validate_image_quality, ValidationError};
