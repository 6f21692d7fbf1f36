//! What the asset handlers share.

use vstd::prelude::*;

verus! {

/// What a range of an asset holds.
#[derive(Clone, Copy, Debug, PartialEq, Eq, Structural)]
pub enum HashBlockObjectType {
    /// The manifest store.
    Cai,
    /// XMP metadata.
    Xmp,
    /// Anything else.
    Other,
}

/// A range of an asset that is treated as one when the asset is hashed.
#[derive(Clone, Copy, Debug, PartialEq, Eq, Structural)]
pub struct HashObjectPositions {
    pub offset: usize,
    pub length: usize,
    pub htype: HashBlockObjectType,
}

/// A reference to a remote manifest, by the way in which it is embedded.
#[derive(Clone, Debug, PartialEq, Eq)]
pub enum RemoteRefEmbedType {
    Xmp(String),
    StegoS(String),
    StegoB(Vec<u8>),
    Watermark(String),
}

} // verus!
