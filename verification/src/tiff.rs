//! TIFF files, with their manifest in a tag of the first page.

pub mod children;
pub mod clone_laws;
pub mod cloner;
pub mod directory;
pub mod format_laws;
pub mod io;
pub mod laws;
pub mod layout;
pub mod lemmas;
pub mod map;
pub mod removal;
pub mod reread;
pub mod store_laws;
pub mod tags;
pub mod tree;
pub mod values;
pub mod writing_laws;
