//! A verified decoder for the TIFF container format.
//!
//! The crate parses the TIFF header and tag directories, resolves typed tag
//! values, and reconstructs raw pixel data from uncompressed, LZW- or
//! PackBits-compressed strips, over an in-memory byte stream.

pub mod error;
pub mod stream;
pub mod ifd;
pub mod packbits;
pub mod lzw;
pub mod decoder;
pub mod predict;
