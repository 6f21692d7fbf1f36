//! Handling of provenance data in image and font assets, and validation of the
//! signatures over it.

pub mod asset;
pub mod cose;
pub mod endian;
pub mod error;
pub mod font;
pub mod identity;
pub mod numbers;
pub mod text;
pub mod tiff;
