//! Manifest stores and XMP in TIFF files.

use vstd::prelude::*;

use vstd::string::StringSliceAdditionalSpecFns;
use vstd::utf8::{encode_utf8, valid_utf8};

use crate::asset::{HashBlockObjectType, HashObjectPositions, RemoteRefEmbedType};
use crate::endian::{put_bytes, read_to_vec};
use crate::error::Error;
use crate::text::{is_one_of, one_of, string_from_utf8};
use crate::tiff::cloner::{ClonerModel, TiffCloner};
use crate::tiff::directory::{
    decode_offset, decoded_offset, IFDEntryType, IfdEntry, C2PA_FIELD_TYPE, C2PA_TAG, XMP_TAG,
};
use crate::tiff::layout::{blank_header, cloned_tiff, tiff_error, ClonedModel, IfdClonedEntry};
use crate::tiff::map::{map_tiff, parse_tiff, TiffModel};
use crate::tiff::tree::{arena_data, arena_data_mut, tree_children};

verus! {

broadcast use {
    vstd::std_specs::hash::group_hash_axioms,
    vstd::std_specs::btree::group_btree_axioms,
};

/// `m` with `tags` added in turn.
pub open spec fn with_tags(m: Map<u16, ClonedModel>, tags: Seq<IfdClonedEntry>) -> Map<
    u16,
    ClonedModel,
>
    decreases tags.len(),
{
    if tags.len() == 0 {
        m
    } else {
        with_tags(m, tags.drop_last()).insert(tags.last().entry_tag, tags.last()@)
    }
}

/// The clone of the file `s` whose page has the tags `added`.
pub open spec fn clone_with(s: Seq<u8>, added: Map<u16, ClonedModel>) -> Option<Seq<u8>> {
    match parse_tiff(s) {
        Err(_) => None,
        Ok(m) => cloned_tiff(
            blank_header(m.byte_order, m.big_tiff),
            s,
            m.page.entries,
            m.children,
            added,
            m.byte_order,
            m.big_tiff,
        ),
    }
}

/// What making the clone may fail with.
pub open spec fn clone_with_error(s: Seq<u8>, added: Map<u16, ClonedModel>, err: Error) -> bool {
    match parse_tiff(s) {
        Err(parse_err) => err == parse_err,
        Ok(m) => tiff_error(
            blank_header(m.byte_order, m.big_tiff),
            s,
            m.page.entries,
            m.children,
            added,
            m.byte_order,
            m.big_tiff,
            err,
        ),
    }
}

/// The clone of the file `s` whose page has no manifest store.
pub open spec fn clone_without_cai(s: Seq<u8>) -> Option<Seq<u8>> {
    match parse_tiff(s) {
        Err(_) => None,
        Ok(m) => cloned_tiff(
            blank_header(m.byte_order, m.big_tiff),
            s,
            m.page.entries.remove(C2PA_TAG),
            m.children,
            Map::empty(),
            m.byte_order,
            m.big_tiff,
        ),
    }
}

/// What making the clone without a manifest store may fail with.
pub open spec fn clone_without_cai_error(s: Seq<u8>, err: Error) -> bool {
    match parse_tiff(s) {
        Err(parse_err) => err == parse_err,
        Ok(m) => tiff_error(
            blank_header(m.byte_order, m.big_tiff),
            s,
            m.page.entries.remove(C2PA_TAG),
            m.children,
            Map::empty(),
            m.byte_order,
            m.big_tiff,
            err,
        ),
    }
}

/// The entry for a manifest store.
pub open spec fn cai_entry(store: Seq<u8>) -> ClonedModel {
    ClonedModel {
        entry_tag: C2PA_TAG,
        entry_type: C2PA_FIELD_TYPE,
        value_count: store.len() as u64,
        value_bytes: store,
    }
}

/// The entry for XMP.
pub open spec fn xmp_entry(xmp: Seq<u8>) -> ClonedModel {
    ClonedModel {
        entry_tag: XMP_TAG,
        entry_type: IFDEntryType::Byte.code(),
        value_count: xmp.len() as u64,
        value_bytes: xmp,
    }
}

/// The one tag `c`.
pub open spec fn just(c: ClonedModel) -> Map<u16, ClonedModel> {
    Map::empty().insert(c.entry_tag, c)
}

/// The clone of the file `s` with a manifest store in place of its own.
pub open spec fn with_cai(s: Seq<u8>, store: Seq<u8>) -> Option<Seq<u8>> {
    clone_with(s, just(cai_entry(store)))
}

/// The clone of the file `s` with XMP in place of its own.
pub open spec fn with_xmp(s: Seq<u8>, xmp: Seq<u8>) -> Option<Seq<u8>> {
    clone_with(s, just(xmp_entry(xmp)))
}

/// The entry for the manifest store of a file, with where the store is.
pub open spec fn cai_place(m: TiffModel) -> int {
    decoded_offset(m.page.entries[C2PA_TAG].value_offset, m.byte_order, m.big_tiff)
}

/// The manifest store of a file.
pub open spec fn cai_of(s: Seq<u8>) -> Result<Seq<u8>, Error> {
    match parse_tiff(s) {
        Err(err) => Err(err),
        Ok(m) => if !m.page.entries.contains_key(C2PA_TAG) {
            Err(Error::JumbfNotFound)
        } else {
            let entry = m.page.entries[C2PA_TAG];
            let at = cai_place(m);
            if entry.entry_type != C2PA_FIELD_TYPE {
                Err(Error::InvalidAsset("Ifd entry for C2PA must be type UNDEFINED(7)"))
            } else if at + entry.value_count > s.len() {
                Err(Error::InvalidAsset("TIFF/DNG out of range"))
            } else {
                Ok(s.subrange(at, at + entry.value_count))
            }
        },
    }
}

/// The XMP of a file.
pub open spec fn xmp_of(s: Seq<u8>) -> Option<Seq<u8>> {
    match parse_tiff(s) {
        Err(_) => None,
        Ok(m) => if !m.page.entries.contains_key(XMP_TAG) {
            None
        } else {
            let entry = m.page.entries[XMP_TAG];
            let at = decoded_offset(entry.value_offset, m.byte_order, m.big_tiff);
            if entry.entry_type != IFDEntryType::Byte.code() || at + entry.value_count > s.len() {
                None
            } else {
                Some(s.subrange(at, at + entry.value_count))
            }
        },
    }
}

/// Whether `text` is what a reference is put into: the XMP of a file, or `min_xmp` where the file
/// has none that is valid UTF-8.
pub open spec fn is_reference_base(s: Seq<u8>, min_xmp: Seq<char>, text: Seq<char>) -> bool {
    match xmp_of(s) {
        Some(bytes) if valid_utf8(bytes) => encode_utf8(text) == bytes,
        _ => text == min_xmp,
    }
}

/// Clones a file; the page of the clone has the given tags in place of its own.
pub fn tiff_clone_with_tags(source: &[u8], tiff_tags: Vec<IfdClonedEntry>) -> (r: Result<
    Vec<u8>,
    Error,
>)
    ensures
        match r {
            Ok(out) => clone_with(source@, with_tags(Map::empty(), tiff_tags@)) == Some(out@),
            Err(err) => {
                &&& clone_with(source@, with_tags(Map::empty(), tiff_tags@)) is None
                &&& clone_with_error(source@, with_tags(Map::empty(), tiff_tags@), err)
            },
        },
{
    let (tree, page_0, endianness, big_tiff) = map_tiff(source)?;
    let ghost model = parse_tiff(source@)->Ok_0;
    let mut tc = TiffCloner::new(endianness, big_tiff);
    let ghost start = tc@;
    let ghost all = tiff_tags@;
    proof {
        assert(all.take(0) =~= Seq::empty());
    }
    for tag in it: tiff_tags.into_iter()
        invariant
            it.seq() == all,
            tc.wf(),
            tc@ == (ClonerModel {
                added: with_tags(Map::empty(), all.take(it.index())),
                ..start
            }),
    {
        proof {
            let done = it.index();
            assert(all[done] == tag);
            assert(all.take(done + 1).drop_last() =~= all.take(done));
        }
        tc.add_target_tag(tag);
    }
    proof {
        assert(all.take(all.len() as int) =~= all);
        crate::tiff::map::lemma_tree_holds(tree, page_0, model.page, model.children);
    }
    tc.clone_tiff(&tree, page_0, source)?;
    Ok(tc.into_inner())
}

/// Reads the manifest store of a file.
fn get_cai_data(source: &[u8]) -> (r: Result<Vec<u8>, Error>)
    ensures
        match r {
            Ok(store) => cai_of(source@) == Ok::<Seq<u8>, Error>(store@),
            Err(err) => cai_of(source@) == Err::<Seq<u8>, Error>(err),
        },
{
    let (tree, page_0, e, big_tiff) = map_tiff(source)?;
    let entry: IfdEntry = match arena_data(&tree, page_0).get_tag(C2PA_TAG) {
        Some(entry) => *entry,
        None => return Err(Error::JumbfNotFound),
    };
    // make sure data type is for unstructured data
    if entry.entry_type != C2PA_FIELD_TYPE {
        return Err(Error::InvalidAsset("Ifd entry for C2PA must be type UNDEFINED(7)"));
    }
    let at: u64 = decode_offset(entry.value_offset, e, big_tiff)?;
    match read_to_vec(source, at, entry.value_count) {
        Ok(data) => Ok(data),
        Err(_) => Err(Error::InvalidAsset("TIFF/DNG out of range")),
    }
}

/// Reads the XMP of a file.
fn get_xmp_data(source: &[u8]) -> (r: Option<Vec<u8>>)
    ensures
        match r {
            Some(xmp) => xmp_of(source@) == Some(xmp@),
            None => xmp_of(source@) is None,
        },
{
    let (tree, page_0, e, big_tiff) = match map_tiff(source) {
        Ok(mapped) => mapped,
        Err(_) => return None,
    };
    let entry: IfdEntry = match arena_data(&tree, page_0).get_tag(XMP_TAG) {
        Some(entry) => *entry,
        None => return None,
    };
    // make sure the tag type is correct
    match IFDEntryType::from_u16(entry.entry_type) {
        Some(IFDEntryType::Byte) => (),
        _ => return None,
    }
    match decode_offset(entry.value_offset, e, big_tiff) {
        Ok(at) => match read_to_vec(source, at, entry.value_count) {
            Ok(data) => Some(data),
            Err(_) => None,
        },
        Err(_) => None,
    }
}

/// Where the manifest store of a file is.
pub open spec fn cai_location(s: Seq<u8>) -> Result<Seq<HashObjectPositions>, Error> {
    match parse_tiff(s) {
        Err(err) => Err(err),
        Ok(m) => if !m.page.entries.contains_key(C2PA_TAG) {
            Ok(Seq::empty())
        } else {
            let entry = m.page.entries[C2PA_TAG];
            let at = cai_place(m);
            if entry.entry_type != C2PA_FIELD_TYPE {
                Err(Error::InvalidAsset("Ifd entry for C2PA must be type UNKNOWN(7)"))
            } else if at > usize::MAX || entry.value_count > usize::MAX {
                Err(Error::InvalidAsset("TIFF/DNG out of range"))
            } else {
                Ok(
                    seq![
                        HashObjectPositions {
                            offset: at as usize,
                            length: entry.value_count as usize,
                            htype: HashBlockObjectType::Cai,
                        },
                    ],
                )
            }
        },
    }
}

/// A manifest store just long enough that it does not stand in its entry.
pub open spec fn placeholder_store() -> Seq<u8> {
    Seq::new(10, |i: int| 0u8)
}

fn locate_cai(source: &[u8]) -> (r: Result<Vec<HashObjectPositions>, Error>)
    ensures
        match r {
            Ok(positions) => cai_location(source@) == Ok::<Seq<HashObjectPositions>, Error>(
                positions@,
            ),
            Err(err) => cai_location(source@) == Err::<Seq<HashObjectPositions>, Error>(err),
        },
{
    let (tree, page_0, e, big_tiff) = map_tiff(source)?;
    let entry: IfdEntry = match arena_data(&tree, page_0).get_tag(C2PA_TAG) {
        Some(entry) => *entry,
        None => {
            let none: Vec<HashObjectPositions> = Vec::new();
            proof {
                assert(none@ =~= Seq::empty());
            }
            return Ok(none);
        },
    };
    // make sure data type is for unstructured data
    if entry.entry_type != C2PA_FIELD_TYPE {
        return Err(Error::InvalidAsset("Ifd entry for C2PA must be type UNKNOWN(7)"));
    }
    let at: u64 = decode_offset(entry.value_offset, e, big_tiff)?;
    if at > usize::MAX as u64 || entry.value_count > usize::MAX as u64 {
        return Err(Error::InvalidAsset("TIFF/DNG out of range"));
    }
    let positions: Vec<HashObjectPositions> = vec![
        HashObjectPositions {
            offset: at as usize,
            length: entry.value_count as usize,
            htype: HashBlockObjectType::Cai,
        },
    ];
    proof {
        assert(positions@ =~= cai_location(source@)->Ok_0);
    }
    Ok(positions)
}

/// A file with a manifest store: the file itself where it has one, else its clone with a
/// placeholder.
fn add_required_tags_to_stream(source: &[u8]) -> (r: Result<Vec<u8>, Error>)
    ensures
        match cai_of(source@) {
            Ok(_) => r matches Ok(out) && out@ == source@,
            Err(Error::JumbfNotFound) => match r {
                Ok(out) => with_cai(source@, placeholder_store()) == Some(out@),
                Err(err) => {
                    &&& with_cai(source@, placeholder_store()) is None
                    &&& clone_with_error(source@, just(cai_entry(placeholder_store())), err)
                },
            },
            Err(err) => r == Err::<Vec<u8>, Error>(err),
        },
{
    let tiff_io = TiffIO {  };
    match tiff_io.read_cai(source) {
        Ok(_) => {
            let mut out: Vec<u8> = Vec::new();
            put_bytes(&mut out, source);
            proof {
                assert(out@ =~= source@);
            }
            Ok(out)
        },
        Err(Error::JumbfNotFound) => {
            // enough bytes that the value is not stored in the offset field
            let some_bytes: Vec<u8> = vec![0, 0, 0, 0, 0, 0, 0, 0, 0, 0];
            proof {
                assert(some_bytes@ =~= placeholder_store());
            }
            tiff_io.write_cai(source, some_bytes.as_slice())
        },
        Err(err) => Err(err),
    }
}

/// The types of the files that are read.
pub open spec fn read_types() -> Seq<&'static str> {
    seq![
        "tif",
        "tiff",
        "image/tiff",
        "dng",
        "image/dng",
        "image/x-adobe-dng",
        "arw",
        "image/x-sony-arw",
        "nef",
        "image/x-nikon-nef",
    ]
}

/// The types of the files that are written: not the native formats of cameras.
pub open spec fn written_types() -> Seq<&'static str> {
    seq!["tif", "tiff", "image/tiff", "dng", "image/dng", "image/x-adobe-dng"]
}

/// Reads and writes the manifest store and the XMP of TIFF files.
#[derive(Clone, Copy, Debug)]
pub struct TiffIO {}

impl TiffIO {
    pub fn new(_asset_type: &str) -> (r: TiffIO)
        ensures
            r == (TiffIO {  }),
    {
        TiffIO {  }
    }

    /// The manifest store of a file.
    pub fn read_cai(&self, asset: &[u8]) -> (r: Result<Vec<u8>, Error>)
        ensures
            match r {
                Ok(store) => cai_of(asset@) == Ok::<Seq<u8>, Error>(store@),
                Err(err) => cai_of(asset@) == Err::<Seq<u8>, Error>(err),
            },
    {
        get_cai_data(asset)
    }

    /// The XMP of a file, where it has some that is valid UTF-8.
    pub fn read_xmp(&self, asset: &[u8]) -> (r: Option<String>)
        ensures
            match r {
                Some(xmp) => xmp_of(asset@) == Some(encode_utf8(xmp@)),
                None => xmp_of(asset@) matches Some(bytes) ==> !valid_utf8(bytes),
            },
    {
        match get_xmp_data(asset) {
            Some(xmp_data) => string_from_utf8(xmp_data),
            None => None,
        }
    }

    /// A clone of a file with the manifest store `store_bytes` in place of its own.
    ///
    /// A store that fits the value field of its entry is written there, where
    /// [`TiffIO::read_cai`] does not look for it.
    pub fn write_cai(&self, input: &[u8], store_bytes: &[u8]) -> (r: Result<Vec<u8>, Error>)
        ensures
            match r {
                Ok(out) => with_cai(input@, store_bytes@) == Some(out@),
                Err(err) => {
                    &&& with_cai(input@, store_bytes@) is None
                    &&& clone_with_error(input@, just(cai_entry(store_bytes@)), err)
                },
            },
    {
        let mut value_bytes: Vec<u8> = Vec::new();
        put_bytes(&mut value_bytes, store_bytes);
        let entry = IfdClonedEntry {
            entry_tag: C2PA_TAG,
            entry_type: C2PA_FIELD_TYPE,
            value_count: store_bytes.len() as u64,
            value_bytes,
        };
        let tags: Vec<IfdClonedEntry> = vec![entry];
        proof {
            assert(entry@ =~= cai_entry(store_bytes@));
            lemma_one_tag(tags@);
        }
        tiff_clone_with_tags(input, tags)
    }

    /// Where the manifest store is in a file, or would be in its clone with a placeholder.
    pub fn get_object_locations_from_stream(&self, input: &[u8]) -> (r: Result<
        Vec<HashObjectPositions>,
        Error,
    >)
        ensures
            match (cai_of(input@), with_cai(input@, placeholder_store())) {
                (Ok(_), _) => match r {
                    Ok(positions) => cai_location(input@) == Ok::<Seq<HashObjectPositions>, Error>(
                        positions@,
                    ),
                    Err(err) => cai_location(input@) == Err::<Seq<HashObjectPositions>, Error>(
                        err,
                    ),
                },
                (Err(Error::JumbfNotFound), Some(out)) => match r {
                    Ok(positions) => cai_location(out) == Ok::<Seq<HashObjectPositions>, Error>(
                        positions@,
                    ),
                    Err(err) => cai_location(out) == Err::<Seq<HashObjectPositions>, Error>(err),
                },
                (Err(Error::JumbfNotFound), None) => r matches Err(err) && clone_with_error(
                    input@,
                    just(cai_entry(placeholder_store())),
                    err,
                ),
                (Err(err), _) => r == Err::<Vec<HashObjectPositions>, Error>(err),
            },
    {
        let output = add_required_tags_to_stream(input)?;
        locate_cai(output.as_slice())
    }

    /// A clone of a file without a manifest store.
    pub fn remove_cai_store_from_stream(&self, input: &[u8]) -> (r: Result<Vec<u8>, Error>)
        ensures
            match r {
                Ok(out) => clone_without_cai(input@) == Some(out@),
                Err(err) => clone_without_cai(input@) is None && clone_without_cai_error(
                    input@,
                    err,
                ),
            },
    {
        let (mut tree, page_0, e, big_tiff) = map_tiff(input)?;
        let ghost model = parse_tiff(input@)->Ok_0;
        let ghost before = tree;
        let mut tc = TiffCloner::new(e, big_tiff);
        let page = arena_data_mut(&mut tree, page_0);
        page.entries.remove(&C2PA_TAG);
        proof {
            crate::tiff::map::lemma_tree_holds(before, page_0, model.page, model.children);
            assert(tree_children(tree, page_0) =~= model.children);
        }
        tc.clone_tiff(&tree, page_0, input)?;
        Ok(tc.into_inner())
    }

    /// Where `store_bytes` has to be written over the manifest store of a file, which must have
    /// the same length.
    pub fn patch_cai_store(&self, asset: &[u8], store_bytes: &[u8]) -> (r: Result<u64, Error>)
        ensures
            match parse_tiff(asset@) {
                Err(err) => r == Err::<u64, Error>(err),
                Ok(m) => if !m.page.entries.contains_key(C2PA_TAG) {
                    r == Err::<u64, Error>(Error::JumbfNotFound)
                } else if m.page.entries[C2PA_TAG].entry_type != C2PA_FIELD_TYPE {
                    r == Err::<u64, Error>(
                        Error::InvalidAsset("Ifd entry for C2PA must be type UNKNOWN(7)"),
                    )
                } else if m.page.entries[C2PA_TAG].value_count > usize::MAX {
                    r == Err::<u64, Error>(Error::InvalidAsset("TIFF/DNG out of range"))
                } else if m.page.entries[C2PA_TAG].value_count != store_bytes@.len() {
                    r == Err::<u64, Error>(
                        Error::InvalidAsset("patch_cai_store store size mismatch."),
                    )
                } else {
                    r matches Ok(at) && at == cai_place(m)
                },
            },
    {
        let (tree, page_0, e, big_tiff) = map_tiff(asset)?;
        let entry: IfdEntry = match arena_data(&tree, page_0).get_tag(C2PA_TAG) {
            Some(entry) => *entry,
            None => return Err(Error::JumbfNotFound),
        };
        // make sure data type is for unstructured data
        if entry.entry_type != C2PA_FIELD_TYPE {
            return Err(Error::InvalidAsset("Ifd entry for C2PA must be type UNKNOWN(7)"));
        }
        if entry.value_count > usize::MAX as u64 {
            return Err(Error::InvalidAsset("TIFF/DNG out of range"));
        }
        if store_bytes.len() as u64 == entry.value_count {
            decode_offset(entry.value_offset, e, big_tiff)
        } else {
            Err(Error::InvalidAsset("patch_cai_store store size mismatch."))
        }
    }

    /// A clone of a file with the XMP `xmp` in place of its own.
    pub fn embed_xmp_to_stream(&self, source: &[u8], xmp: &str) -> (r: Result<Vec<u8>, Error>)
        ensures
            match r {
                Ok(out) => with_xmp(source@, encode_utf8(xmp@)) == Some(out@),
                Err(err) => {
                    &&& with_xmp(source@, encode_utf8(xmp@)) is None
                    &&& clone_with_error(source@, just(xmp_entry(encode_utf8(xmp@))), err)
                },
            },
    {
        let bytes = xmp.as_bytes();
        let mut value_bytes: Vec<u8> = Vec::new();
        put_bytes(&mut value_bytes, bytes);
        let entry = IfdClonedEntry {
            entry_tag: XMP_TAG,
            entry_type: 1,
            value_count: bytes.len() as u64,
            value_bytes,
        };
        let tags: Vec<IfdClonedEntry> = vec![entry];
        proof {
            assert(entry@ =~= xmp_entry(encode_utf8(xmp@)));
            lemma_one_tag(tags@);
        }
        tiff_clone_with_tags(source, tags)
    }

    /// A clone of a file whose XMP refers to a remote manifest. `add_provenance` puts the
    /// reference into the file's XMP, or into `min_xmp` where the file has none.
    pub fn embed_reference_to_stream<F>(
        &self,
        source: &[u8],
        embed_ref: RemoteRefEmbedType,
        min_xmp: &str,
        add_provenance: F,
    ) -> (r: Result<Vec<u8>, Error>) where F: Fn(String, String) -> Result<String, Error>
        requires
            forall|xmp: String, uri: String| add_provenance.requires((xmp, uri)),
        ensures
            match embed_ref {
                RemoteRefEmbedType::Xmp(uri) => exists|
                    xmp: String,
                    made: Result<String, Error>,
                |
                    {
                        &&& #[trigger] add_provenance.ensures((xmp, uri), made)
                        &&& is_reference_base(source@, min_xmp@, xmp@)
                        &&& match (made, r) {
                            (Err(err), _) => r == Err::<Vec<u8>, Error>(err),
                            (Ok(text), Ok(out)) => with_xmp(source@, encode_utf8(text@)) == Some(
                                out@,
                            ),
                            (Ok(text), Err(err)) => {
                                &&& with_xmp(source@, encode_utf8(text@)) is None
                                &&& clone_with_error(
                                    source@,
                                    just(xmp_entry(encode_utf8(text@))),
                                    err,
                                )
                            },
                        }
                    },
                _ => r == Err::<Vec<u8>, Error>(Error::UnsupportedType),
            },
    {
        match embed_ref {
            RemoteRefEmbedType::Xmp(manifest_uri) => {
                let xmp: String = match self.read_xmp(source) {
                    Some(xmp) => xmp,
                    None => min_xmp.to_owned(),
                };
                proof {
                    vstd::utf8::encode_utf8_valid_utf8(xmp@);
                    assert(is_reference_base(source@, min_xmp@, xmp@));
                }
                match add_provenance(xmp, manifest_uri) {
                    Ok(text) => self.embed_xmp_to_stream(source, text.as_str()),
                    Err(err) => Err(err),
                }
            },
            RemoteRefEmbedType::StegoS(_) => Err(Error::UnsupportedType),
            RemoteRefEmbedType::StegoB(_) => Err(Error::UnsupportedType),
            RemoteRefEmbedType::Watermark(_) => Err(Error::UnsupportedType),
        }
    }

    /// The block that holds a manifest: the manifest as it is.
    pub fn compose_manifest(&self, manifest_data: &[u8], _format: &str) -> (r: Result<
        Vec<u8>,
        Error,
    >)
        ensures
            r matches Ok(block) && block@ == manifest_data@,
    {
        let mut block: Vec<u8> = Vec::new();
        put_bytes(&mut block, manifest_data);
        proof {
            assert(block@ =~= manifest_data@);
        }
        Ok(block)
    }

    /// A writer for files of the given type, where such files are written.
    pub fn get_writer(&self, asset_type: &str) -> (r: Option<TiffIO>)
        ensures
            r is Some <==> one_of(asset_type@, written_types()),
    {
        let types: Vec<&str> = vec![
            "tif",
            "tiff",
            "image/tiff",
            "dng",
            "image/dng",
            "image/x-adobe-dng",
        ];
        proof {
            assert(types@ =~= written_types());
        }
        if is_one_of(asset_type, &types) {
            Some(TiffIO::new(asset_type))
        } else {
            None
        }
    }

    /// The types of the files that are read.
    pub fn supported_types(&self) -> (r: Vec<&'static str>)
        ensures
            r@ == read_types(),
    {
        let types: Vec<&'static str> = vec![
            "tif",
            "tiff",
            "image/tiff",
            "dng",
            "image/dng",
            "image/x-adobe-dng",
            "arw",
            "image/x-sony-arw",
            "nef",
            "image/x-nikon-nef",
        ];
        proof {
            assert(types@ =~= read_types());
        }
        types
    }
}

proof fn lemma_one_tag(tags: Seq<IfdClonedEntry>)
    requires
        tags.len() == 1,
        tags[0].entry_tag == tags[0]@.entry_tag,
    ensures
        with_tags(Map::empty(), tags) == just(tags[0]@),
{
    assert(tags.drop_last() =~= Seq::empty());
    reveal_with_fuel(with_tags, 2);
    assert(with_tags(Map::empty(), tags) =~= just(tags[0]@));
}

} // verus!
