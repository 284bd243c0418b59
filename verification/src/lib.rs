//! Seeded procedural image generation: a seed string deterministically
//! yields a row-major grid of 4-bit quantized RGB pixels, ready to be
//! scaled to 8-bit bytes and handed to an image encoder.

pub mod generate;
pub mod grid;
