//! The parts that a font is hashed by.

use vstd::prelude::*;

use crate::asset::{HashBlockObjectType, HashObjectPositions};
use crate::error::Error;
use crate::font::error::{wrap_font_err, FontError};

verus! {

/// A part of a font.
#[derive(Debug, PartialEq, Eq)]
pub struct Chunk {
    /// The name of the part, or why it has none.
    pub name: Result<String, FontError>,
    pub offset: usize,
    pub length: usize,
    /// Whether the part is hashed with the rest of the font.
    pub should_hash: bool,
}

/// The range of a part: what is hashed, or what belongs to the manifest.
pub open spec fn position_of(chunk: Chunk) -> HashObjectPositions {
    HashObjectPositions {
        offset: chunk.offset,
        length: chunk.length,
        htype: if chunk.should_hash {
            HashBlockObjectType::Other
        } else {
            HashBlockObjectType::Cai
        },
    }
}

/// The ranges of all parts of a font.
pub fn object_locations(chunks: &Vec<Chunk>) -> (r: Vec<HashObjectPositions>)
    ensures
        r@ == chunks@.map_values(|chunk: Chunk| position_of(chunk)),
{
    let mut locations: Vec<HashObjectPositions> = Vec::new();
    let mut i: usize = 0;
    while i < chunks.len()
        invariant
            i <= chunks@.len(),
            locations@.len() == i,
            forall|k: int| 0 <= k < i ==> #[trigger] locations@[k] == position_of(chunks@[k]),
        decreases chunks@.len() - i,
    {
        let htype: HashBlockObjectType = if chunks[i].should_hash {
            HashBlockObjectType::Other
        } else {
            HashBlockObjectType::Cai
        };
        locations.push(
            HashObjectPositions { offset: chunks[i].offset, length: chunks[i].length, htype },
        );
        i = i + 1;
    }
    proof {
        assert(locations@ =~= chunks@.map_values(|chunk: Chunk| position_of(chunk)));
    }
    locations
}

/// A box: a named range of an asset, and its hash once there is one.
#[derive(Clone, Debug, PartialEq, Eq)]
pub struct BoxMap {
    pub names: Vec<String>,
    pub alg: Option<String>,
    pub hash: Vec<u8>,
    pub pad: Vec<u8>,
    pub range_start: usize,
    pub range_len: usize,
}

/// Whether `box_map` is the box of a part, under its name and not hashed yet.
pub open spec fn is_box_of(box_map: BoxMap, chunk: Chunk) -> bool {
    &&& chunk.name is Ok
    &&& box_map.names@.len() == 1
    &&& box_map.names@[0]@ == chunk.name->Ok_0@
    &&& box_map.alg is None
    &&& box_map.hash@.len() == 0
    &&& box_map.pad@.len() == 0
    &&& box_map.range_start == chunk.offset
    &&& box_map.range_len == chunk.length
}

/// The parts that become boxes: those that are hashed, or all of them.
pub open spec fn boxed(chunks: Seq<Chunk>, all: bool) -> Seq<Chunk> {
    chunks.filter(|chunk: Chunk| all || chunk.should_hash)
}

/// Whether `r` is what comes of making boxes of `parts`: one for each of them in order, or what is
/// wrong with the name of the first that has none.
pub open spec fn boxes_made(parts: Seq<Chunk>, r: Result<Vec<BoxMap>, FontError>) -> bool {
    match r {
        Ok(maps) => {
            &&& maps@.len() == parts.len()
            &&& forall|k: int|
                0 <= k < parts.len() ==> is_box_of(#[trigger] maps@[k], parts[k])
        },
        Err(err) => exists|n: int|
            {
                &&& 0 <= n < parts.len()
                &&& (#[trigger] parts[n]).name == Err::<String, FontError>(err)
                &&& forall|k: int| 0 <= k < n ==> (#[trigger] parts[k]).name is Ok
            },
    }
}

/// The boxes of the parts of a font, of those that are hashed or of all.
pub fn box_maps(chunks: &Vec<Chunk>, all: bool) -> (r: Result<Vec<BoxMap>, FontError>)
    ensures
        boxes_made(boxed(chunks@, all), r),
{
    let mut maps: Vec<BoxMap> = Vec::new();
    let mut i: usize = 0;
    let ghost keep = |chunk: Chunk| all || chunk.should_hash;
    proof {
        assert(chunks@.take(0) =~= Seq::empty());
        reveal(Seq::filter);
    }
    while i < chunks.len()
        invariant
            i <= chunks@.len(),
            keep == (|chunk: Chunk| all || chunk.should_hash),
            boxes_made(boxed(chunks@.take(i as int), all), Ok(maps)),
        decreases chunks@.len() - i,
    {
        let ghost before = boxed(chunks@.take(i as int), all);
        proof {
            let next = chunks@.take(i + 1);
            assert(next.drop_last() =~= chunks@.take(i as int));
            reveal(Seq::filter);
            assert(boxed(next, all) == if all || chunks@[i as int].should_hash {
                before.push(chunks@[i as int])
            } else {
                before
            });
        }
        if all || chunks[i].should_hash {
            let name: String = match &chunks[i].name {
                Ok(name) => name.clone(),
                Err(err) => {
                    proof {
                        lemma_boxed_prefix(chunks@, i + 1, all);
                        let parts = boxed(chunks@, all);
                        let n = before.len() as int;
                        assert(parts[n] == chunks@[i as int]);
                        assert forall|k: int| 0 <= k < n implies (
                        #[trigger] parts[k]).name is Ok by {
                            assert(parts[k] == before[k]);
                            assert(is_box_of(maps@[k], before[k]));
                        }
                    }
                    return Err(*err);
                },
            };
            let ghost text = name@;
            let ghost had = maps@;
            let mut names: Vec<String> = Vec::new();
            names.push(name);
            maps.push(
                BoxMap {
                    names,
                    alg: None,
                    hash: Vec::new(),
                    pad: Vec::new(),
                    range_start: chunks[i].offset,
                    range_len: chunks[i].length,
                },
            );
            proof {
                let parts = before.push(chunks@[i as int]);
                assert forall|k: int| 0 <= k < parts.len() implies is_box_of(
                    #[trigger] maps@[k],
                    parts[k],
                ) by {
                    if k < before.len() {
                        assert(maps@[k] == had[k]);
                        assert(parts[k] == before[k]);
                    } else {
                        assert(maps@[k].names@[0]@ == text);
                    }
                }
            }
        }
        i = i + 1;
    }
    proof {
        assert(chunks@.take(i as int) =~= chunks@);
    }
    Ok(maps)
}

proof fn lemma_boxed_prefix(chunks: Seq<Chunk>, n: int, all: bool)
    requires
        0 <= n <= chunks.len(),
    ensures
        boxed(chunks.take(n), all).len() <= boxed(chunks, all).len(),
        forall|k: int|
            0 <= k < boxed(chunks.take(n), all).len() ==> #[trigger] boxed(chunks, all)[k] == boxed(
                chunks.take(n),
                all,
            )[k],
    decreases chunks.len() - n,
{
    if n < chunks.len() {
        lemma_boxed_prefix(chunks, n + 1, all);
        assert(chunks.take(n + 1).drop_last() =~= chunks.take(n));
        reveal(Seq::filter);
    } else {
        assert(chunks.take(n) =~= chunks);
    }
}

/// Whether `r` is what comes of making boxes of the parts of a font, where those could be found.
pub open spec fn box_map_outcome(
    chunks: Result<Vec<Chunk>, FontError>,
    all: bool,
    r: Result<Vec<BoxMap>, Error>,
) -> bool {
    match chunks {
        Err(err) => r == Err::<Vec<BoxMap>, Error>(Error::FontError(err)),
        Ok(chunks) => match r {
            Ok(maps) => boxes_made(boxed(chunks@, all), Ok(maps)),
            Err(err) => err matches Error::FontError(e) && boxes_made(
                boxed(chunks@, all),
                Err(e),
            ),
        },
    }
}

/// The boxes of the parts of a font, where those could be found.
pub fn get_box_map(chunks: Result<Vec<Chunk>, FontError>, all: bool) -> (r: Result<
    Vec<BoxMap>,
    Error,
>)
    ensures
        box_map_outcome(chunks, all, r),
{
    match chunks {
        Ok(chunks) => match box_maps(&chunks, all) {
            Ok(maps) => Ok(maps),
            Err(err) => Err(wrap_font_err(err)),
        },
        Err(err) => Err(wrap_font_err(err)),
    }
}

} // verus!
