//! Fonts.

pub mod chunks;
pub mod error;
pub mod format_laws;
pub mod laws;
pub mod otf;
pub mod sfnt;
pub mod table;
pub mod thumbnail;
pub mod woff;
pub mod xmp;
pub mod xmp_laws;
