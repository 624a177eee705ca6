//! Pixel-level image analysis: non-local-means denoising, k-means colour
//! segmentation with recolouring, binary morphology, and channel adjustments,
//! over an RGB pixel grid with explicit dimensions.
//!
//! Every function carries a contract over the mathematical view of its
//! arguments. Calls into the codec, morphology and filter crates stand behind
//! small trusted functions whose doc comments say what is assumed of them.

pub mod buffer;
pub mod codec;
pub mod commands;
pub mod error;
pub mod filters;
pub mod kernel;
pub mod kmeans;
pub mod morphology;
pub mod nlm;
pub mod recolor;
