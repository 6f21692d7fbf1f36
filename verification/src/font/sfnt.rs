//! Fonts in an SFNT container.

use vstd::prelude::*;

use crate::asset::{HashObjectPositions, RemoteRefEmbedType};
use crate::endian::put_bytes;
use crate::error::Error;
use crate::font::chunks::{
    box_map_outcome, get_box_map, object_locations, position_of, BoxMap, Chunk,
};
use crate::font::error::{wrap_font_err, FontError};
use crate::font::table::{bytes_result, text_of, text_result, C2paTable, TableModel};
use crate::font::thumbnail::font_mime_types;
use crate::font::xmp::{default_xmp, provenance_xmp, reference_as_xmp, reference_xmp};

verus! {

// Reading.

/// What a font has under the tag of the 'C2PA' table.
#[derive(Clone, Debug, PartialEq, Eq)]
pub enum TaggedTable {
    /// Nothing.
    Absent,
    /// A 'C2PA' table.
    C2pa(C2paTable),
    /// A table of another kind.
    Other,
}

/// The 'C2PA' table of a font that was read, or why there is none.
pub open spec fn sfnt_table(font: Result<TaggedTable, FontError>) -> Result<
    TableModel,
    FontError,
> {
    match font {
        Err(err) => Err(err),
        Ok(TaggedTable::Absent) => Err(FontError::JumbfNotFound),
        Ok(TaggedTable::C2pa(table)) => Ok(table@),
        Ok(TaggedTable::Other) => Err(
            FontError::InvalidNamedTable("Non-C2PA table with C2PA tag"),
        ),
    }
}

/// Reads the `C2PA` font table.
pub fn read_c2pa_from_stream(font: Result<TaggedTable, FontError>) -> (r: Result<
    C2paTable,
    FontError,
>)
    ensures
        match r {
            Ok(table) => sfnt_table(font) == Ok::<TableModel, FontError>(table@),
            Err(err) => sfnt_table(font) == Err::<TableModel, FontError>(err),
        },
{
    match font? {
        TaggedTable::Absent => Err(FontError::JumbfNotFound),
        TaggedTable::C2pa(table) => Ok(table),
        // Yikes! Non-C2PA table with C2PA tag!
        TaggedTable::Other => Err(FontError::InvalidNamedTable("Non-C2PA table with C2PA tag")),
    }
}

/// The reference to the active manifest, which a font without a 'C2PA' table does not have.
pub open spec fn sfnt_reference(font: Result<TaggedTable, FontError>) -> Result<
    Option<Seq<char>>,
    FontError,
> {
    match sfnt_table(font) {
        Ok(table) => Ok(table.active_manifest_uri),
        Err(FontError::JumbfNotFound) => Ok(None),
        Err(err) => Err(err),
    }
}

/// Reads the C2PA manifest store reference.
pub fn read_reference_from_stream(font: Result<TaggedTable, FontError>) -> (r: Result<
    Option<String>,
    FontError,
>)
    ensures
        text_result(r) == sfnt_reference(font),
{
    match read_c2pa_from_stream(font) {
        Ok(c2pa_data) => Ok(c2pa_data.active_manifest_uri),
        Err(FontError::JumbfNotFound) => Ok(None),
        Err(err) => Err(err),
    }
}

// Writing.

/// What becomes of a field of the 'C2PA' table.
#[derive(Clone, Copy, Debug, PartialEq, Eq, Structural)]
pub enum FieldUpdate<T> {
    /// The field stays as it is.
    Keep,
    /// The field is emptied.
    Clear,
    /// The field is given a value.
    Put(T),
}

/// What becomes of the 'C2PA' table.
#[derive(Debug)]
pub struct RecordUpdate {
    pub active_manifest_uri: FieldUpdate<String>,
    pub content_credential: FieldUpdate<Vec<u8>>,
}

/// What a table is once it is updated.
pub open spec fn updated(table: TableModel, update: RecordUpdate) -> TableModel {
    TableModel {
        active_manifest_uri: match update.active_manifest_uri {
            FieldUpdate::Keep => table.active_manifest_uri,
            FieldUpdate::Clear => None,
            FieldUpdate::Put(uri) => Some(uri@),
        },
        manifest_store: match update.content_credential {
            FieldUpdate::Keep => table.manifest_store,
            FieldUpdate::Clear => None,
            FieldUpdate::Put(store) => Some(store@),
        },
    }
}

/// Whether an update adds the manifest store `store`, and nothing else.
pub open spec fn adds_store(update: RecordUpdate, store: Seq<u8>) -> bool {
    &&& update.active_manifest_uri is Keep
    &&& update.content_credential matches FieldUpdate::Put(put) && put@ == store
}

/// The update that adds C2PA manifest store data to a font.
pub fn add_c2pa_to_stream(manifest_store_data: &[u8]) -> (r: RecordUpdate)
    ensures
        adds_store(r, manifest_store_data@),
{
    let mut store: Vec<u8> = Vec::new();
    put_bytes(&mut store, manifest_store_data);
    proof {
        assert(store@ =~= manifest_store_data@);
    }
    RecordUpdate {
        active_manifest_uri: FieldUpdate::Keep,
        content_credential: FieldUpdate::Put(store),
    }
}

/// Whether an update adds the reference `uri`, and nothing else.
pub open spec fn adds_reference(update: RecordUpdate, uri: Seq<char>) -> bool {
    &&& update.active_manifest_uri matches FieldUpdate::Put(put) && put@ == uri
    &&& update.content_credential is Keep
}

/// The update that adds the specified reference URI to a font.
pub fn add_reference_to_stream(manifest_uri: &str) -> (r: RecordUpdate)
    ensures
        adds_reference(r, manifest_uri@),
{
    RecordUpdate {
        active_manifest_uri: FieldUpdate::Put(manifest_uri.to_owned()),
        content_credential: FieldUpdate::Keep,
    }
}

/// The update that removes the reference to the active manifest from a font, and the reference, if
/// one was present.
pub fn remove_reference_from_stream(font: Result<TaggedTable, FontError>) -> (r: Result<
    (RecordUpdate, Option<String>),
    FontError,
>)
    ensures
        match font {
            Err(err) => r == Err::<(RecordUpdate, Option<String>), FontError>(err),
            Ok(tagged) => r matches Ok((update, removed)) && update.active_manifest_uri is Clear
                && update.content_credential is Keep && text_of(removed) == match tagged {
                TaggedTable::C2pa(table) => table@.active_manifest_uri,
                _ => None,
            },
        },
{
    let removed: Option<String> = match font? {
        TaggedTable::C2pa(table) => table.active_manifest_uri,
        _ => None,
    };
    let update = RecordUpdate {
        active_manifest_uri: FieldUpdate::Clear,
        content_credential: FieldUpdate::Keep,
    };
    Ok((update, removed))
}

/// The table that is added to a font to support C2PA: an empty one, or none if the font has one
/// already.
pub fn add_required_chunks_to_stream(has_c2pa: bool) -> (r: Option<C2paTable>)
    ensures
        match r {
            Some(table) => !has_c2pa && table@ == (TableModel {
                active_manifest_uri: None,
                manifest_store: None,
            }),
            None => has_c2pa,
        },
{
    if has_c2pa {
        None
    } else {
        Some(C2paTable { active_manifest_uri: None, manifest_store: None })
    }
}

/// Whether `r` is the update that adds the text of `xmp` as the reference, or the error in its
/// place.
pub open spec fn reference_update(
    r: Result<RecordUpdate, FontError>,
    xmp: Result<Seq<char>, FontError>,
) -> bool {
    match (r, xmp) {
        (Ok(update), Ok(xmp)) => adds_reference(update, xmp),
        (Err(err), Err(expected)) => err == expected,
        _ => false,
    }
}

/// Whether `r` may be the XMP made of the reference that is read from a font, with the
/// provenance `uri`.
pub open spec fn xmp_with_provenance<
    F: Fn(String, &'static str, String) -> Result<String, ()>,
    G: Fn(String, String) -> Result<String, ()>,
>(
    font: Result<TaggedTable, FontError>,
    uri: Seq<char>,
    min_xmp: Seq<char>,
    add_xmp_key: F,
    add_provenance: G,
    r: Result<Seq<char>, FontError>,
) -> bool {
    match reference_xmp(sfnt_reference(font)) {
        Ok(xmp) => provenance_xmp(add_provenance, xmp, uri, r),
        Err(FontError::XmpNotFound) => exists|start: Result<Seq<char>, FontError>|
            {
                &&& #[trigger] default_xmp(add_xmp_key, min_xmp, None, None, start)
                &&& match start {
                    Ok(xmp) => provenance_xmp(add_provenance, xmp, uri, r),
                    Err(err) => r == Err::<Seq<char>, FontError>(err),
                }
            },
        Err(err) => r == Err::<Seq<char>, FontError>(err),
    }
}

/// The update that adds a C2PA manifest reference as XMP data to a font.
pub fn add_reference_as_xmp_to_stream<F, G>(
    font: Result<TaggedTable, FontError>,
    manifest_uri: &str,
    min_xmp: &str,
    add_xmp_key: &F,
    add_provenance: &G,
) -> (r: Result<RecordUpdate, FontError>) where
    F: Fn(String, &'static str, String) -> Result<String, ()>,
    G: Fn(String, String) -> Result<String, ()>,

    requires
        forall|xmp: String, key: &'static str, value: String|
            add_xmp_key.requires((xmp, key, value)),
        forall|xmp: String, uri: String| add_provenance.requires((xmp, uri)),
    ensures
        exists|xmp: Result<Seq<char>, FontError>|
            {
                &&& #[trigger] xmp_with_provenance(
                    font,
                    manifest_uri@,
                    min_xmp@,
                    *add_xmp_key,
                    *add_provenance,
                    xmp,
                )
                &&& reference_update(r, xmp)
            },
{
    let reference = read_reference_from_stream(font);
    let made = reference_as_xmp(reference, manifest_uri, min_xmp, add_xmp_key, add_provenance);
    let ghost xmp = crate::font::xmp::xmp_result(made);
    proof {
        assert(xmp_with_provenance(
            font,
            manifest_uri@,
            min_xmp@,
            *add_xmp_key,
            *add_provenance,
            xmp,
        ));
    }
    match made {
        Ok(xmp) => Ok(add_reference_to_stream(xmp.as_str())),
        Err(err) => Err(err),
    }
}

// The handler.

/// The manifest store of a font.
pub open spec fn sfnt_store(font: Result<TaggedTable, FontError>) -> Result<Seq<u8>, Error> {
    match sfnt_table(font) {
        Ok(table) => match table.manifest_store {
            Some(store) => Ok(store),
            None => Err(Error::JumbfNotFound),
        },
        Err(FontError::JumbfNotFound) => Err(Error::JumbfNotFound),
        Err(err) => Err(Error::FontError(err)),
    }
}

/// Font software IO object
#[derive(Clone, Copy, Debug, PartialEq, Eq, Structural)]
pub struct SfntIO {}

impl SfntIO {
    /// Reads the manifest store of a font.
    pub fn read_cai(&self, font: Result<TaggedTable, FontError>) -> (r: Result<Vec<u8>, Error>)
        ensures
            bytes_result(r) == sfnt_store(font),
    {
        match read_c2pa_from_stream(font) {
            Ok(c2pa_table) => match c2pa_table.manifest_store {
                Some(manifest_store) => Ok(manifest_store),
                None => Err(Error::JumbfNotFound),
            },
            Err(FontError::JumbfNotFound) => Err(Error::JumbfNotFound),
            Err(err) => Err(wrap_font_err(err)),
        }
    }

    /// Fonts have no XMP data. For now we will pretend it does and read from the reference.
    pub fn read_xmp(&self, font: Result<TaggedTable, FontError>) -> (r: Option<String>)
        ensures
            text_of(r) == match sfnt_reference(font) {
                Ok(reference) => reference,
                Err(_) => None,
            },
    {
        match read_reference_from_stream(font) {
            Ok(reference) => reference,
            Err(_) => None,
        }
    }

    /// The ranges of the parts of a font that has a 'C2PA' table, where those could be found.
    pub fn get_object_locations_from_stream(&self, chunks: Result<Vec<Chunk>, FontError>) -> (r:
        Result<Vec<HashObjectPositions>, Error>)
        ensures
            match chunks {
                Ok(chunks) => r matches Ok(locations) && locations@ == chunks@.map_values(
                    |chunk: Chunk| position_of(chunk),
                ),
                Err(err) => r == Err::<Vec<HashObjectPositions>, Error>(Error::FontError(err)),
            },
    {
        match chunks {
            Ok(chunks) => Ok(object_locations(&chunks)),
            Err(err) => Err(wrap_font_err(err)),
        }
    }

    /// The boxes of the parts of a font that are hashed.
    pub fn get_box_map(&self, chunks: Result<Vec<Chunk>, FontError>) -> (r: Result<
        Vec<BoxMap>,
        Error,
    >)
        ensures
            box_map_outcome(chunks, false, r),
    {
        get_box_map(chunks, false)
    }

    /// The update of a font that adds a reference to a remote manifest.
    pub fn embed_reference_to_stream(&self, embed_ref: RemoteRefEmbedType) -> (r: Result<
        RecordUpdate,
        Error,
    >)
        ensures
            match embed_ref {
                RemoteRefEmbedType::Xmp(manifest_uri) => r matches Ok(update) && adds_reference(
                    update,
                    manifest_uri@,
                ),
                _ => r == Err::<RecordUpdate, Error>(Error::UnsupportedType),
            },
    {
        match embed_ref {
            RemoteRefEmbedType::Xmp(manifest_uri) => Ok(
                add_reference_to_stream(manifest_uri.as_str()),
            ),
            RemoteRefEmbedType::StegoS(_) => Err(Error::UnsupportedType),
            RemoteRefEmbedType::StegoB(_) => Err(Error::UnsupportedType),
            RemoteRefEmbedType::Watermark(_) => Err(Error::UnsupportedType),
        }
    }

    /// The types of the fonts that are handled.
    pub fn supported_types(&self) -> (r: Vec<&'static str>)
        ensures
            r@ == font_mime_types(),
    {
        let types: Vec<&'static str> = vec![
            "application/font-sfnt",
            "application/x-font-ttf",
            "application/x-font-opentype",
            "application/x-font-truetype",
            "font/otf",
            "font/sfnt",
            "font/ttf",
            "otf",
            "sfnt",
            "ttf",
        ];
        proof {
            assert(types@ =~= font_mime_types());
        }
        types
    }
}

} // verus!
