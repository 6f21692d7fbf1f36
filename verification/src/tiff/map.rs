//! Reading the directories of a file into a tree.

use vstd::prelude::*;

use atree::{Arena, Token};

use crate::endian::{lemma_u32_agree, read_to_vec, read_u32, u32_at, Endianness};
use crate::error::Error;
use crate::tiff::directory::{
    decode_offset, value_field_bytes, IfdEntry, IfdModel, IfdType, ImageFileDirectory,
    TiffStructure, EXIFIFD_TAG, GPSIFD_TAG, SUBFILE_TAG,
};
use crate::tiff::directory::{
    decoded_offset, ifd_at, ifd_fits, parse_header, parse_ifd, value_field,
};
use crate::tiff::tree::{arena_append_node, arena_data, arena_new_node, arena_with_data};
use crate::tiff::tree::{arena_children, arena_nodes, tree_children, tree_page};

verus! {

broadcast use crate::endian::group_widths;

/// What the handlers know of a file: its layout, its first directory and the directories that
/// hang off it, those for subfiles first, then EXIF, then GPS.
#[verifier::ext_equal]
pub struct TiffModel {
    pub byte_order: Endianness,
    pub big_tiff: bool,
    pub page: IfdModel,
    pub children: Seq<IfdModel>,
}

pub open spec fn out_of_range() -> Error {
    Error::InvalidAsset("value out of range")
}

pub open spec fn past_end() -> Error {
    Error::BadParam("read past end of stream")
}

/// The `n` 32-bit integers stored from `p`.
pub open spec fn u32s_at(e: Endianness, s: Seq<u8>, p: int, n: int) -> Seq<int> {
    Seq::new(n as nat, |i: int| u32_at(e, s, p + 4 * i))
}

/// Whether a value of `n` bytes stands in the value field of its entry.
pub open spec fn is_inline(n: int, big: bool) -> bool {
    n <= 4 || big && n <= 8
}

/// The offsets of the subfile directories that `entry` lists.
pub open spec fn subfile_offsets(s: Seq<u8>, entry: IfdEntry, e: Endianness, big: bool) -> Result<
    Seq<int>,
    Error,
> {
    let n = entry.value_count as int;
    let at = decoded_offset(entry.value_offset, e, big);
    if 4 * n > u64::MAX || 4 * n > usize::MAX {
        Err(out_of_range())
    } else if is_inline(4 * n, big) {
        Ok(u32s_at(e, value_field(entry.value_offset), 0, n))
    } else if at + 4 * n > s.len() {
        Err(past_end())
    } else {
        Ok(u32s_at(e, s, at, n))
    }
}

/// The directories stored at `offsets`.
pub open spec fn ifds_at(
    s: Seq<u8>,
    offsets: Seq<int>,
    e: Endianness,
    big: bool,
    ty: IfdType,
) -> Seq<IfdModel> {
    Seq::new(offsets.len(), |i: int| ifd_at(s, offsets[i], e, big, ty))
}

/// The subfile directories of the page with the entries `entries`.
pub open spec fn subfile_ifds(
    s: Seq<u8>,
    entries: Map<u16, IfdEntry>,
    e: Endianness,
    big: bool,
) -> Result<Seq<IfdModel>, Error> {
    if !entries.contains_key(SUBFILE_TAG) {
        Ok(Seq::empty())
    } else {
        match subfile_offsets(s, entries[SUBFILE_TAG], e, big) {
            Err(err) => Err(err),
            Ok(offsets) => if forall|i: int|
                0 <= i < offsets.len() ==> #[trigger] ifd_fits(s, offsets[i], e, big) {
                Ok(ifds_at(s, offsets, e, big, IfdType::Subfile))
            } else {
                Err(Error::IoError)
            },
        }
    }
}

/// The one directory that the entry for `tag` points to, if there is such an entry.
pub open spec fn tagged_ifd(
    s: Seq<u8>,
    entries: Map<u16, IfdEntry>,
    tag: u16,
    e: Endianness,
    big: bool,
    ty: IfdType,
) -> Result<Seq<IfdModel>, Error> {
    if !entries.contains_key(tag) {
        Ok(Seq::empty())
    } else {
        match parse_ifd(s, decoded_offset(entries[tag].value_offset, e, big), e, big, ty) {
            Err(err) => Err(err),
            Ok(ifd) => Ok(seq![ifd]),
        }
    }
}

/// The directories that hang off the page with the entries `entries`.
pub open spec fn child_ifds(
    s: Seq<u8>,
    entries: Map<u16, IfdEntry>,
    e: Endianness,
    big: bool,
) -> Result<Seq<IfdModel>, Error> {
    match subfile_ifds(s, entries, e, big) {
        Err(err) => Err(err),
        Ok(subfiles) => match tagged_ifd(s, entries, EXIFIFD_TAG, e, big, IfdType::Exif) {
            Err(err) => Err(err),
            Ok(exif) => match tagged_ifd(s, entries, GPSIFD_TAG, e, big, IfdType::Gps) {
                Err(err) => Err(err),
                Ok(gps) => Ok(subfiles + exif + gps),
            },
        },
    }
}

/// The directories of a file.
pub open spec fn parse_tiff(s: Seq<u8>) -> Result<TiffModel, Error> {
    match parse_header(s) {
        Err(err) => Err(err),
        Ok(h) => match parse_ifd(
            s,
            h.first_ifd_offset as int,
            h.byte_order,
            h.big_tiff,
            IfdType::Page,
        ) {
            Err(err) => Err(err),
            Ok(page) => match child_ifds(s, page.entries, h.byte_order, h.big_tiff) {
                Err(err) => Err(err),
                Ok(children) => Ok(
                    TiffModel {
                        byte_order: h.byte_order,
                        big_tiff: h.big_tiff,
                        page,
                        children,
                    },
                ),
            },
        },
    }
}

/// Whether an arena is a tree of the node `root`, which holds `page`, and of its children, which
/// hold `children` and have no children of their own.
pub open spec fn tree_holds(
    arena: Arena<ImageFileDirectory>,
    root: Token,
    page: IfdModel,
    children: Seq<IfdModel>,
) -> bool {
    let nodes = arena_nodes(arena);
    let tokens = arena_children(arena)[root];
    &&& nodes.contains_key(root)
    &&& nodes[root]@ == page
    &&& tokens.len() == children.len()
    &&& forall|i: int|
        0 <= i < children.len() ==> {
            &&& nodes.contains_key(#[trigger] tokens[i])
            &&& tokens[i] != root
            &&& nodes[tokens[i]]@ == children[i]
            &&& arena_children(arena)[tokens[i]].len() == 0
        }
    &&& tokens.no_duplicates()
    &&& forall|t: Token| #[trigger] nodes.contains_key(t) ==> t == root || tokens.contains(t)
}

/// What a tree holds is what its nodes hold.
pub proof fn lemma_tree_holds(
    arena: Arena<ImageFileDirectory>,
    root: Token,
    page: IfdModel,
    children: Seq<IfdModel>,
)
    requires
        tree_holds(arena, root, page, children),
    ensures
        arena_nodes(arena).contains_key(root),
        tree_page(arena, root) == page,
        tree_children(arena, root) == children,
{
    let tokens = arena_children(arena)[root];
    assert forall|i: int| 0 <= i < children.len() implies tree_children(arena, root)[i]
        == children[i] by {
        assert(arena_nodes(arena).contains_key(tokens[i]));
    }
    assert(tree_children(arena, root) =~= children);
}

/// Hangs `ifd` off the page at `root`, behind its other directories.
fn append_ifd(
    arena: &mut Arena<ImageFileDirectory>,
    root: Token,
    ifd: ImageFileDirectory,
    Ghost(page): Ghost<IfdModel>,
    Ghost(children): Ghost<Seq<IfdModel>>,
) -> (r: Result<(), Error>)
    requires
        tree_holds(*old(arena), root, page, children),
    ensures
        r is Ok,
        tree_holds(*final(arena), root, page, children.push(ifd@)),
{
    let ghost before = *arena;
    let token = arena_new_node(arena, ifd);
    let ghost between = *arena;
    proof {
        assert(arena_children(between)[root] == arena_children(before)[root]);
    }
    match arena_append_node(root, arena, token) {
        Ok(()) => (),
        Err(_) => return Err(Error::InvalidAsset("Bad TIFF Structure")),
    }
    proof {
        let tokens = arena_children(before)[root];
        assert(arena_children(*arena)[root] == tokens.push(token));
        let more = children.push(ifd@);
        let ts = arena_children(*arena)[root];
        assert forall|i: int| 0 <= i < more.len() implies {
            &&& arena_nodes(*arena).contains_key(#[trigger] ts[i])
            &&& ts[i] != root
            &&& arena_nodes(*arena)[ts[i]]@ == more[i]
            &&& arena_children(*arena)[ts[i]].len() == 0
        } by {
            if i < children.len() {
                assert(tokens.push(token)[i] == tokens[i]);
            }
        }
        assert forall|t: Token| #[trigger] arena_nodes(*arena).contains_key(t) implies t == root
            || ts.contains(t) by {
            if t == token {
                assert(ts[children.len() as int] == t);
            } else if t != root {
                assert(arena_nodes(before).contains_key(t));
                let i = choose|i: int| 0 <= i < tokens.len() && tokens[i] == t;
                assert(ts[i] == t);
            }
        }
        assert(ts.no_duplicates()) by {
            assert forall|i: int, j: int| 0 <= i < ts.len() && 0 <= j < ts.len() && i
                != j implies ts[i] != ts[j] by {
                if i < tokens.len() {
                    assert(arena_nodes(before).contains_key(tokens[i]));
                }
                if j < tokens.len() {
                    assert(arena_nodes(before).contains_key(tokens[j]));
                }
            }
        }
    }
    Ok(())
}

/// Reads the `count` 32-bit integers that `bytes` starts with.
fn read_u32s(bytes: &[u8], count: usize, e: Endianness) -> (r: Vec<u32>)
    requires
        4 * count <= bytes@.len(),
    ensures
        r@.len() == count,
        forall|i: int| 0 <= i < count ==> #[trigger] r@[i] == u32_at(e, bytes@, 4 * i),
{
    let mut values: Vec<u32> = Vec::new();
    let mut i: usize = 0;
    let len: usize = bytes.len();
    while i < count
        invariant
            i <= count,
            len == bytes@.len(),
            4 * count <= len,
            values@.len() == i,
            forall|k: int| 0 <= k < i ==> #[trigger] values@[k] == u32_at(e, bytes@, 4 * k),
        decreases count - i,
    {
        if let Ok(v) = read_u32(bytes, 4 * (i as u64), e) {
            values.push(v);
        }
        i = i + 1;
    }
    values
}

/// Reads the offsets of the subfile directories that `entry` lists.
fn read_subfile_offsets(source: &[u8], entry: IfdEntry, e: Endianness, big: bool) -> (r: Result<
    Vec<u32>,
    Error,
>)
    ensures
        match r {
            Ok(offsets) => subfile_offsets(source@, entry, e, big) == Ok::<Seq<int>, Error>(
                offsets@.map_values(|v: u32| v as int),
            ),
            Err(err) => subfile_offsets(source@, entry, e, big) == Err::<Seq<int>, Error>(err),
        },
{
    let at: u64 = decode_offset(entry.value_offset, e, big)?;
    let longs_x4: u64 = match entry.value_count.checked_mul(4) {
        Some(n) => n,
        None => return Err(Error::InvalidAsset("value out of range")),
    };
    if longs_x4 > usize::MAX as u64 {
        return Err(Error::InvalidAsset("value out of range"));
    }
    let count: usize = entry.value_count as usize;
    if longs_x4 <= 4 || big && longs_x4 <= 8 {
        let bytes = value_field_bytes(entry.value_offset);
        let offsets = read_u32s(bytes.as_slice(), count, e);
        proof {
            assert(offsets@.map_values(|v: u32| v as int) =~= u32s_at(
                e,
                value_field(entry.value_offset),
                0,
                count as int,
            ));
        }
        Ok(offsets)
    } else {
        let bytes = read_to_vec(source, at, longs_x4)?;
        let offsets = read_u32s(bytes.as_slice(), count, e);
        proof {
            assert forall|i: int| 0 <= i < count implies #[trigger] offsets@[i] == u32_at(
                e,
                source@,
                at + 4 * i,
            ) by {
                assert(offsets@[i] == u32_at(e, bytes@, 4 * i));
                lemma_u32_agree(e, bytes@, 4 * i, source@, at + 4 * i);
            }
            assert(offsets@.map_values(|v: u32| v as int) =~= u32s_at(
                e,
                source@,
                at as int,
                count as int,
            ));
        }
        Ok(offsets)
    }
}

/// Hangs the directory that the entry for `tag` points to, if there is one, off the page.
fn append_tagged_ifd(
    source: &[u8],
    arena: &mut Arena<ImageFileDirectory>,
    root: Token,
    tag: u16,
    e: Endianness,
    big: bool,
    ty: IfdType,
    Ghost(page): Ghost<IfdModel>,
    Ghost(children): Ghost<Seq<IfdModel>>,
) -> (r: Result<(), Error>)
    requires
        tree_holds(*old(arena), root, page, children),
    ensures
        match tagged_ifd(source@, page.entries, tag, e, big, ty) {
            Ok(more) => r is Ok && tree_holds(*final(arena), root, page, children + more),
            Err(err) => r == Err::<(), Error>(err),
        },
{
    let found: Option<IfdEntry> = match arena_data(arena, root).get_tag(tag) {
        Some(entry) => Some(*entry),
        None => None,
    };
    match found {
        None => {
            proof {
                assert(children + Seq::<IfdModel>::empty() =~= children);
            }
            Ok(())
        },
        Some(entry) => {
            let at: u64 = decode_offset(entry.value_offset, e, big)?;
            let ifd = TiffStructure::read_ifd(source, at, e, big, ty)?;
            let ghost model = ifd@;
            proof {
                assert(children.push(model) =~= children + seq![model]);
            }
            append_ifd(arena, root, ifd, Ghost(page), Ghost(children))
        },
    }
}

/// Reads the directories of a file into a tree; returns it with its root and the file's layout.
pub fn map_tiff(source: &[u8]) -> (r: Result<
    (Arena<ImageFileDirectory>, Token, Endianness, bool),
    Error,
>)
    ensures
        match r {
            Ok((tree, page_0, byte_order, big_tiff)) => {
                &&& parse_tiff(source@) matches Ok(model)
                &&& model.byte_order == byte_order
                &&& model.big_tiff == big_tiff
                &&& tree_holds(tree, page_0, model.page, model.children)
            },
            Err(err) => parse_tiff(source@) == Err::<TiffModel, Error>(err),
        },
{
    let ts = TiffStructure::load(source)?;
    let e: Endianness = ts.byte_order;
    let big: bool = ts.big_tiff;
    let ifd = match ts.first_ifd {
        Some(ifd) => ifd,
        None => return Err(Error::InvalidAsset("TIFF structure invalid")),
    };
    let ghost page = ifd@;
    let subifd: Option<IfdEntry> = match ifd.get_tag(SUBFILE_TAG) {
        Some(entry) => Some(*entry),
        None => None,
    };
    let (mut tree, page_0) = arena_with_data(ifd);
    let ghost mut children: Seq<IfdModel> = Seq::empty();

    // the SubIFDs of page 0 (DNG)
    if let Some(entry) = subifd {
        let offsets = read_subfile_offsets(source, entry, e, big)?;
        let ghost at = offsets@.map_values(|v: u32| v as int);
        let mut i: usize = 0;
        while i < offsets.len()
            invariant
                i <= offsets.len(),
                at == offsets@.map_values(|v: u32| v as int),
                children == ifds_at(source@, at, e, big, IfdType::Subfile).take(i as int),
                tree_holds(tree, page_0, page, children),
                forall|k: int| 0 <= k < i ==> #[trigger] ifd_fits(source@, at[k], e, big),
                page.entries.contains_key(SUBFILE_TAG),
                page.entries[SUBFILE_TAG] == entry,
                subfile_offsets(source@, entry, e, big) == Ok::<Seq<int>, Error>(at),
                parse_tiff(source@) == (match child_ifds(source@, page.entries, e, big) {
                    Err(err) => Err(err),
                    Ok(children) => Ok(
                        TiffModel { byte_order: e, big_tiff: big, page, children },
                    ),
                }),
            decreases offsets.len() - i,
        {
            proof {
                assert(at[i as int] == offsets@[i as int] as int);
            }
            let subfile = match TiffStructure::read_ifd(
                source,
                offsets[i] as u64,
                e,
                big,
                IfdType::Subfile,
            ) {
                Ok(subfile) => subfile,
                Err(err) => {
                    proof {
                        assert(!ifd_fits(source@, at[i as int], e, big));
                    }
                    return Err(err);
                },
            };
            let ghost model = subfile@;
            append_ifd(&mut tree, page_0, subfile, Ghost(page), Ghost(children))?;
            proof {
                let all = ifds_at(source@, at, e, big, IfdType::Subfile);
                assert(all[i as int] == model);
                assert(children.push(model) =~= all.take(i + 1));
                children = children.push(model);
            }
            i = i + 1;
        }
        proof {
            let all = ifds_at(source@, at, e, big, IfdType::Subfile);
            assert(children =~= all);
        }
    }
    proof {
        assert(subfile_ifds(source@, page.entries, e, big) == Ok::<Seq<IfdModel>, Error>(
            children,
        ));
    }

    append_tagged_ifd(
        source,
        &mut tree,
        page_0,
        EXIFIFD_TAG,
        e,
        big,
        IfdType::Exif,
        Ghost(page),
        Ghost(children),
    )?;
    let ghost with_exif = children + tagged_ifd(
        source@,
        page.entries,
        EXIFIFD_TAG,
        e,
        big,
        IfdType::Exif,
    )->Ok_0;
    append_tagged_ifd(
        source,
        &mut tree,
        page_0,
        GPSIFD_TAG,
        e,
        big,
        IfdType::Gps,
        Ghost(page),
        Ghost(with_exif),
    )?;
    Ok((tree, page_0, e, big))
}

} // verus!
