//! Fonts in a WOFF container.

use vstd::prelude::*;

use crate::error::Error;
use crate::font::chunks::{box_map_outcome, get_box_map, BoxMap, Chunk};
use crate::font::error::FontError;

verus! {

/// The types of the fonts that are handled.
pub open spec fn woff_types() -> Seq<&'static str> {
    seq!["application/font-woff", "application/x-font-woff", "font/woff", "woff"]
}

/// Main WOFF IO feature.
#[derive(Clone, Copy, Debug, PartialEq, Eq, Structural)]
pub struct WoffIO {}

impl WoffIO {
    /// The boxes of all parts of a font.
    pub fn get_box_map(&self, chunks: Result<Vec<Chunk>, FontError>) -> (r: Result<
        Vec<BoxMap>,
        Error,
    >)
        ensures
            box_map_outcome(chunks, true, r),
    {
        get_box_map(chunks, true)
    }

    /// The types of the fonts that are handled.
    pub fn supported_types(&self) -> (r: Vec<&'static str>)
        ensures
            r@ == woff_types(),
    {
        let types: Vec<&'static str> = vec![
            "application/font-woff",
            "application/x-font-woff",
            "font/woff",
            "woff",
        ];
        proof {
            assert(types@ =~= woff_types());
        }
        types
    }
}

} // verus!
