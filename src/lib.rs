//! Filter-bank exploration: cut a grid of small kernels out of a grayscale
//! sheet, correlate each with a target image, and render every response map
//! as a bounded, normalized grayscale preview with a mean-activation score.
//!
//! All arithmetic is exact: intensities stay raw bytes, kernel weights are
//! integers in units of 1/255 and responses integers in units of 1/65025.

pub mod arith;
pub mod decode;
pub mod engine;
pub mod gray;
pub mod pipeline;
pub mod preview;
pub mod session;
pub mod shape;
pub mod splitter;
